//! What drift, blockers, the writer's gate and the evolution keep.

use crate::blockers;
use crate::blockers::BlockerView;
use crate::canonical_writer;
use crate::drift_analysis;
use crate::drift_analysis::{FingerprintDrift, Movement};
use crate::error_class::ErrorClass;
use crate::events::{ControlEvent, EffectEvent, Event, TlogRecord};
use crate::evolution;
use crate::order;
use crate::semantic;
use crate::semantic::SymbolSummary;
use crate::text;
use vstd::prelude::*;

verus! {

// ---------------------------------------------------------------------------
// Drift
// ---------------------------------------------------------------------------

/// What a summary knows of a symbol, in tenths: five for each half point of its
/// branch score, ten for each block and one for each statement.
pub open spec fn weight(s: SymbolSummary) -> int {
    let a = if let Some(h) = s.branch_half_points { 5 * h } else { 0 };
    let b = if let Some(n) = s.mir_blocks { 10 * n } else { 0 };
    let c = if let Some(n) = s.mir_stmts { n as int } else { 0 };
    a + b + c
}

/// A symbol that was not known before is new. One whose fingerprint is as it was is
/// stable. Of any other the weight tells: one that is lighter improved, one that is
/// heavier regressed, and one that weighs the same is stable.
pub proof fn law_a_symbol_moves_by_its_weight(prev: Seq<SymbolSummary>, curr: SymbolSummary)
    ensures
        ({
            let way = drift_analysis::movement(prev, curr);
            match semantic::last_of(prev, curr.symbol@) {
                None => way == Movement::New,
                Some(i) => {
                    let was = prev[i];
                    let alike = match (was.mir_fingerprint, curr.mir_fingerprint) {
                        (Some(x), Some(y)) => x@ == y@,
                        (None, None) => true,
                        _ => false,
                    };
                    &&& alike ==> way == Movement::Stable
                    &&& !alike && weight(curr) < weight(was) ==> way == Movement::Improved
                    &&& !alike && weight(curr) > weight(was) ==> way == Movement::Regressed
                    &&& !alike && weight(curr) == weight(was) ==> way == Movement::Stable
                },
            }
        }),
{
}

/// A symbol is listed where it moved that way, once for each summary.
pub proof fn law_movers_are_listed(
    prev: Seq<SymbolSummary>,
    curr: Seq<SymbolSummary>,
    s: SymbolSummary,
    way: Movement,
)
    ensures
        drift_analysis::moved(prev, Seq::empty(), way).len() == 0,
        drift_analysis::moved(prev, curr.push(s), way) == if drift_analysis::movement(prev, s)
            == way {
            drift_analysis::moved(prev, curr, way).push(s.symbol@)
        } else {
            drift_analysis::moved(prev, curr, way)
        },
{
    assert(curr.push(s).drop_last() =~= curr);
}

/// A drift lists what improved and what regressed under those names.
pub proof fn law_a_drift_lists_both_ways(
    d: FingerprintDrift,
    prev: Seq<SymbolSummary>,
    curr: Seq<SymbolSummary>,
)
    requires
        d.of(prev, curr),
    ensures
        text::texts(d.improved@).to_multiset() == drift_analysis::moved(
            prev,
            curr,
            Movement::Improved,
        ).to_multiset(),
        text::texts(d.regressed@).to_multiset() == drift_analysis::moved(
            prev,
            curr,
            Movement::Regressed,
        ).to_multiset(),
        d.stable_count == drift_analysis::moved(prev, curr, Movement::Stable).len(),
{
    order::lemma_sorted_texts(drift_analysis::moved(prev, curr, Movement::Improved));
    order::lemma_sorted_texts(drift_analysis::moved(prev, curr, Movement::Regressed));
}

// ---------------------------------------------------------------------------
// Blockers
// ---------------------------------------------------------------------------

/// A recorded blocker is the last of those that the log holds; no other event adds
/// one.
pub proof fn law_a_log_holds_its_blockers(rs: Seq<TlogRecord>, r: TlogRecord)
    ensures
        blockers::recorded(Seq::empty()).len() == 0,
        r.event matches Event::Effect { event: EffectEvent::BlockerRecorded { record } }
            ==> blockers::recorded(rs.push(r)) == blockers::recorded(rs).push(record@),
        !(r.event matches Event::Effect { event: EffectEvent::BlockerRecorded { record } })
            ==> blockers::recorded(rs.push(r)) == blockers::recorded(rs),
{
    assert(rs.push(r).drop_last() =~= rs);
}

/// The newest records are the last of the list: all of them up to the cap, and as
/// many as the cap beyond it.
pub proof fn law_the_newest_are_the_last(s: Seq<BlockerView>, i: int)
    requires
        0 <= i < blockers::newest(s).len(),
    ensures
        s.len() <= 500 ==> blockers::newest(s).len() == s.len(),
        s.len() > 500 ==> blockers::newest(s).len()
            == 500,
        blockers::newest(s)[i] == s[s.len() - blockers::newest(s).len() + i],
{
}

/// A record counts for an actor kind that its actor begins with and for its own
/// class; and it counts as recent where it is no older than the window, also where
/// it is from the future.
pub proof fn law_a_record_counts_for_its_class(
    s: Seq<BlockerView>,
    b: BlockerView,
    actor_kind: Seq<char>,
    class: ErrorClass,
    now: u64,
    window: u64,
)
    ensures
        ({
            let mine = text::has_prefix(b.actor, actor_kind) && b.error_class == class;
            let new = b.ts_ms >= now || now - b.ts_ms <= window;
            &&& blockers::class_records(s.push(b), actor_kind, class).len()
                == blockers::class_records(s, actor_kind, class).len() + if mine {
                1int
            } else {
                0int
            }
            &&& blockers::recent_class_records(s.push(b), actor_kind, class, now, window).len()
                == blockers::recent_class_records(s, actor_kind, class, now, window).len()
                + if mine && new {
                1int
            } else {
                0int
            }
        }),
{
    reveal(Seq::filter);
    assert(s.push(b).drop_last() =~= s);
}

/// A failure of a known class is recorded under its actor, its class and its time;
/// one of no known class is not.
pub proof fn law_a_classified_failure_is_recorded(
    role: Seq<char>,
    kind: Seq<char>,
    result: Seq<char>,
    class: ErrorClass,
    task: Option<Seq<char>>,
    ts: u64,
)
    ensures
        ({
            let r = blockers::failure_record(role, kind, result, class, task, ts);
            &&& r is None <==> class == ErrorClass::Unknown
            &&& r matches Some(b) ==> {
                &&& b.actor == role && b.error_class == class && b.ts_ms == ts
                &&& b.task_id == task && b.objective_id is None
                &&& b.action_kind == kind && b.source == "action_result"@
            }
        }),
{
}

/// A message is recorded whatever its class is.
pub proof fn law_a_message_is_recorded(
    role: Seq<char>,
    summary: Seq<char>,
    class: ErrorClass,
    task: Option<Seq<char>>,
    objective: Option<Seq<char>>,
    ts: u64,
)
    ensures
        ({
            let b = blockers::message_record(role, summary, class, task, objective, ts);
            &&& b.actor == role && b.error_class == class && b.ts_ms == ts
            &&& b.task_id == task && b.objective_id == objective && b.summary == summary
            &&& b.action_kind == "message"@ && b.source == "blocker_message"@
        }),
{
}

/// Without a record the log stays as it was; with one, that one is its last.
pub proof fn law_nothing_recorded_changes_nothing(file: (u32, Seq<BlockerView>), b: BlockerView)
    ensures
        blockers::appended(file, None) == file,
        blockers::appended(file, Some(b)).1.len() > 0,
        blockers::appended(file, Some(b)).1.last() == b,
        blockers::appended(file, Some(b)).0 == file.0,
{
}

// ---------------------------------------------------------------------------
// Replay and refusal
// ---------------------------------------------------------------------------

/// A control event steps the replayed state; an effect leaves it as it was.
pub proof fn law_a_replay_steps_by_control_events<S>(
    initial: S,
    log: Seq<Event>,
    step: spec_fn(S, ControlEvent) -> S,
    e: Event,
)
    ensures
        canonical_writer::replayed(initial, Seq::empty(), step) == initial,
        e matches Event::Control { event } ==> canonical_writer::replayed(
            initial,
            log.push(e),
            step,
        ) == step(canonical_writer::replayed(initial, log, step), event),
        e is Effect ==> canonical_writer::replayed(initial, log.push(e), step)
            == canonical_writer::replayed(initial, log, step),
{
    assert(log.push(e).drop_last() =~= log);
}

/// A transition is let pass exactly where it is legal, its state is valid and the log
/// took it; an illegal one is refused as such whatever its state.
pub proof fn law_a_transition_passes_all_checks(
    legal: Result<(), String>,
    valid: Result<(), String>,
    appended: Option<Result<u64, String>>,
)
    ensures
        canonical_writer::check_refusal(legal, valid) is None <==> legal is Ok && valid is Ok,
        canonical_writer::apply_refusal(legal, valid, appended) is None <==> legal is Ok
            && valid is Ok && (appended matches Some(a) && a is Ok),
        legal matches Err(reason) ==> canonical_writer::apply_refusal(legal, valid, appended)
            == Some("[canonical_writer] "@ + "illegal control transition"@ + ": "@ + reason@),
        legal is Ok ==> (valid matches Err(reason) ==> canonical_writer::apply_refusal(
            legal,
            valid,
            appended,
        ) == Some("[canonical_writer] "@ + "invalid control transition"@ + ": "@ + reason@)),
{
}

// ---------------------------------------------------------------------------
// Evolution
// ---------------------------------------------------------------------------

/// What was printed counts without the space around it, and blank text not at all.
pub proof fn law_blank_output_is_no_output(s: Seq<char>)
    ensures
        evolution::printed(None) is None,
        text::blank(s) ==> evolution::printed(Some(s)) is None,
        !text::blank(s) ==> evolution::printed(Some(s)) == Some(text::trimmed(s)),
        evolution::optional_number(None) is None,
        evolution::optional_number(Some(s)) == text::parsed(s),
{
}

} // verus!
