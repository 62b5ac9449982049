//! Signals over a window of the transition log.
//!
//! A pure function of the recent records: gaps in the sequence and in time,
//! turns without results, writes without application, improvement attempts
//! without measurement or validation, and how recoveries ended.

use crate::events;
use crate::events::{tlog_event_kind, ControlEvent, EffectEvent, Event, ScoreChange, TlogRecord};
use crate::tally;
use crate::tally::{dominant, unmatched_count, KindAmount};
use crate::text;
use crate::text::{contains, same, to_ascii_lower, trim};
use vstd::prelude::*;
use vstd::string::*;
use vstd::utf8::*;

verus! {

/// A gap between two records counts as lag from this length on.
pub const TLOG_LAG_GAP_MIN_MS: u64 = 1_000;

/// A longer gap is idle time, not lag.
pub const TLOG_LAG_GAP_MAX_MS: u64 = 120_000;

/// How many records behind a recovery decide how it ended.
pub const RECOVERY_EVAL_WINDOW_EVENTS: usize = 32;

// ---------------------------------------------------------------------------
// Counting records
// ---------------------------------------------------------------------------

/// How many records hold an event with the property `p`.
pub open spec fn count(rs: Seq<TlogRecord>, p: spec_fn(Event) -> bool) -> nat
    decreases rs.len(),
{
    if rs.len() == 0 {
        0
    } else {
        count(rs.drop_last(), p) + if p(rs.last().event) {
            1nat
        } else {
            0
        }
    }
}

/// What `f` adds up to over the records.
pub open spec fn total(rs: Seq<TlogRecord>, f: spec_fn(Event) -> nat) -> nat
    decreases rs.len(),
{
    if rs.len() == 0 {
        0
    } else {
        total(rs.drop_last(), f) + f(rs.last().event)
    }
}

/// The texts that `f` gives for the records, in order.
pub open spec fn collected(
    rs: Seq<TlogRecord>,
    f: spec_fn(Event) -> Option<Seq<char>>,
) -> Seq<Seq<char>>
    decreases rs.len(),
{
    if rs.len() == 0 {
        Seq::empty()
    } else {
        match f(rs.last().event) {
            Some(t) => collected(rs.drop_last(), f).push(t),
            None => collected(rs.drop_last(), f),
        }
    }
}

/// The length of a text in UTF-8 bytes, as a machine count.
pub open spec fn byte_len(t: Seq<char>) -> nat {
    encode_utf8(t).len() as usize as nat
}

pub open spec fn is_turn_input(e: Event) -> bool {
    e matches Event::Effect { event: EffectEvent::LlmTurnInput { .. } }
}

pub open spec fn is_turn_output(e: Event) -> bool {
    e matches Event::Effect { event: EffectEvent::LlmTurnOutput { .. } }
}

/// The command of a turn output that names an action.
pub open spec fn action_output_id(e: Event) -> Option<Seq<char>> {
    match e {
        Event::Effect {
            event: EffectEvent::LlmTurnOutput { command_id, action_kind: Some(_), .. },
        } => Some(command_id@),
        _ => None,
    }
}

pub open spec fn is_action_output(e: Event) -> bool {
    action_output_id(e) is Some
}

/// The command of an action result.
pub open spec fn action_result_id(e: Event) -> Option<Seq<char>> {
    match e {
        Event::Effect { event: EffectEvent::ActionResultRecorded { command_id, .. } } => Some(
            command_id@,
        ),
        _ => None,
    }
}

pub open spec fn is_action_result(e: Event) -> bool {
    action_result_id(e) is Some
}

pub open spec fn is_error_boundary(e: Event) -> bool {
    e matches Event::Effect { event: EffectEvent::LlmErrorBoundary { .. } }
}

pub open spec fn is_truncation(e: Event) -> bool {
    e matches Event::Effect { event: EffectEvent::PromptTruncationRecorded { .. } }
}

/// What a prompt truncation dropped.
pub open spec fn dropped_by_truncation(e: Event) -> nat {
    match e {
        Event::Effect {
            event: EffectEvent::PromptTruncationRecorded { dropped_bytes, .. },
        } => dropped_bytes as nat,
        _ => 0,
    }
}

/// The signature of a requested artifact write.
pub open spec fn write_request_signature(e: Event) -> Option<Seq<char>> {
    match e {
        Event::Effect {
            event: EffectEvent::WorkspaceArtifactWriteRequested { signature, .. },
        } => Some(signature@),
        _ => None,
    }
}

pub open spec fn is_write_request(e: Event) -> bool {
    write_request_signature(e) is Some
}

/// The signature of an applied artifact write.
pub open spec fn write_applied_signature(e: Event) -> Option<Seq<char>> {
    match e {
        Event::Effect {
            event: EffectEvent::WorkspaceArtifactWriteApplied { signature, .. },
        } => Some(signature@),
        _ => None,
    }
}

pub open spec fn is_write_applied(e: Event) -> bool {
    write_applied_signature(e) is Some
}

pub open spec fn is_checkpoint_blocked(e: Event) -> bool {
    e matches Event::Effect { event: EffectEvent::GitCheckpointBlocked { .. } }
}

/// A checkpoint of Rust changes for which nobody had asked for verification.
pub open spec fn is_unsafe_checkpoint(e: Event) -> bool {
    match e {
        Event::Effect {
            event: EffectEvent::GitCheckpointBlocked {
                verification_requested,
                rust_sensitive_changes,
                ..
            },
        } => rust_sensitive_changes && !verification_requested,
        _ => false,
    }
}

pub open spec fn is_restart_request(e: Event) -> bool {
    e matches Event::Effect { event: EffectEvent::SupervisorRestartRequested { .. } }
}

pub open spec fn is_child_start(e: Event) -> bool {
    e matches Event::Effect { event: EffectEvent::SupervisorChildStarted { .. } }
}

pub open spec fn is_recovery_suppressed(e: Event) -> bool {
    e matches Event::Effect { event: EffectEvent::RecoverySuppressed { .. } }
}

/// The plan text that an event carries, in bytes.
pub open spec fn plan_text_bytes(e: Event) -> nat {
    match e {
        Event::Control { event: ControlEvent::LastPlanTextSet { text } } => byte_len(text@),
        Event::Control { event: ControlEvent::LastSoloPlanTextSet { text } } => byte_len(text@),
        _ => 0,
    }
}

/// The executor diff that an event carries, in bytes.
pub open spec fn executor_diff_bytes(e: Event) -> nat {
    match e {
        Event::Control { event: ControlEvent::LastExecutorDiffSet { text } } => byte_len(text@),
        Event::Control { event: ControlEvent::LastSoloExecutorDiffSet { text } } => byte_len(
            text@,
        ),
        _ => 0,
    }
}

/// Restart requests that no start of a child has answered yet.
pub open spec fn unanswered_restarts(rs: Seq<TlogRecord>) -> nat
    decreases rs.len(),
{
    if rs.len() == 0 {
        0
    } else {
        let before = unanswered_restarts(rs.drop_last());
        if is_restart_request(rs.last().event) {
            before + 1
        } else if is_child_start(rs.last().event) && before > 0 {
            (before - 1) as nat
        } else {
            before
        }
    }
}

/// Counts over a window of records.
#[derive(Debug)]
pub struct EventCounts {
    pub llm_turn_inputs: usize,
    pub llm_turn_outputs: usize,
    pub llm_action_outputs: usize,
    pub action_results: usize,
    pub llm_error_boundaries: usize,
    pub prompt_truncations: usize,
    pub prompt_truncation_dropped_bytes: u64,
    pub artifact_write_requests: usize,
    pub artifact_write_applies: usize,
    pub git_checkpoint_blocked: usize,
    pub unsafe_checkpoint_attempts: usize,
    pub supervisor_restart_requests: usize,
    pub supervisor_child_starts: usize,
    pub restart_requests_without_child_start: usize,
    pub recovery_suppressed: usize,
    pub last_plan_text_payload_bytes: u64,
    pub last_executor_diff_payload_bytes: u64,
}

impl EventCounts {
    /// Every count is that of the records `rs`.
    pub open spec fn of(self, rs: Seq<TlogRecord>) -> bool {
        &&& self.llm_turn_inputs == count(rs, |e: Event| is_turn_input(e))
        &&& self.llm_turn_outputs == count(rs, |e: Event| is_turn_output(e))
        &&& self.llm_action_outputs == count(rs, |e: Event| is_action_output(e))
        &&& self.action_results == count(rs, |e: Event| is_action_result(e))
        &&& self.llm_error_boundaries == count(rs, |e: Event| is_error_boundary(e))
        &&& self.prompt_truncations == count(rs, |e: Event| is_truncation(e))
        &&& self.prompt_truncation_dropped_bytes == tally::capped(
            total(rs, |e: Event| dropped_by_truncation(e)),
        )
        &&& self.artifact_write_requests == count(rs, |e: Event| is_write_request(e))
        &&& self.artifact_write_applies == count(rs, |e: Event| is_write_applied(e))
        &&& self.git_checkpoint_blocked == count(rs, |e: Event| is_checkpoint_blocked(e))
        &&& self.unsafe_checkpoint_attempts == count(rs, |e: Event| is_unsafe_checkpoint(e))
        &&& self.supervisor_restart_requests == count(rs, |e: Event| is_restart_request(e))
        &&& self.supervisor_child_starts == count(rs, |e: Event| is_child_start(e))
        &&& self.restart_requests_without_child_start == unanswered_restarts(rs)
        &&& self.recovery_suppressed == count(rs, |e: Event| is_recovery_suppressed(e))
        &&& self.last_plan_text_payload_bytes == tally::capped(
            total(rs, |e: Event| plan_text_bytes(e)),
        )
        &&& self.last_executor_diff_payload_bytes == tally::capped(
            total(rs, |e: Event| executor_diff_bytes(e)),
        )
    }

    spec fn at_most(self, n: int) -> bool {
        &&& self.llm_turn_inputs <= n
        &&& self.llm_turn_outputs <= n
        &&& self.llm_action_outputs <= n
        &&& self.action_results <= n
        &&& self.llm_error_boundaries <= n
        &&& self.prompt_truncations <= n
        &&& self.artifact_write_requests <= n
        &&& self.artifact_write_applies <= n
        &&& self.git_checkpoint_blocked <= n
        &&& self.unsafe_checkpoint_attempts <= n
        &&& self.supervisor_restart_requests <= n
        &&& self.supervisor_child_starts <= n
        &&& self.restart_requests_without_child_start <= n
        &&& self.recovery_suppressed <= n
    }
}

/// Counts the effects of a window of records.
pub fn count_events(records: &Vec<TlogRecord>) -> (r: EventCounts)
    ensures
        r.of(records@),
{
    let mut c = EventCounts {
        llm_turn_inputs: 0,
        llm_turn_outputs: 0,
        llm_action_outputs: 0,
        action_results: 0,
        llm_error_boundaries: 0,
        prompt_truncations: 0,
        prompt_truncation_dropped_bytes: 0,
        artifact_write_requests: 0,
        artifact_write_applies: 0,
        git_checkpoint_blocked: 0,
        unsafe_checkpoint_attempts: 0,
        supervisor_restart_requests: 0,
        supervisor_child_starts: 0,
        restart_requests_without_child_start: 0,
        recovery_suppressed: 0,
        last_plan_text_payload_bytes: 0,
        last_executor_diff_payload_bytes: 0,
    };
    let mut i: usize = 0;
    assert(records@.take(0) =~= Seq::<TlogRecord>::empty());
    while i < records.len()
        invariant
            i <= records.len(),
            c.of(records@.take(i as int)),
            c.at_most(i as int),
        decreases records.len() - i,
    {
        proof {
            assert(records@.take(i + 1).drop_last() =~= records@.take(i as int));
            assert(records@.take(i + 1).last() == records@[i as int]);
        }
        count_event(&mut c, &records[i].event, Ghost(records@.take(i as int)), Ghost(i as int));
        assert(c.of(records@.take(i + 1)));
        i += 1;
    }
    assert(records@.take(i as int) =~= records@);
    c
}

/// Adds one event to the counts.
fn count_event(
    c: &mut EventCounts,
    event: &Event,
    before: Ghost<Seq<TlogRecord>>,
    seen: Ghost<int>,
)
    requires
        old(c).of(before@),
        old(c).at_most(seen@),
        0 <= seen@ < usize::MAX,
    ensures
        forall|rs: Seq<TlogRecord>|
            rs.len() > 0 && rs.drop_last() == before@ && rs.last().event == *event
                ==> #[trigger] final(c).of(rs),
        final(c).at_most(seen@ + 1),
{
    match event {
        Event::Control { event: control } => match control {
            ControlEvent::LastPlanTextSet { text } => {
                c.last_plan_text_payload_bytes = c.last_plan_text_payload_bytes.saturating_add(
                    text.as_str().len() as u64,
                );
            },
            ControlEvent::LastSoloPlanTextSet { text } => {
                c.last_plan_text_payload_bytes = c.last_plan_text_payload_bytes.saturating_add(
                    text.as_str().len() as u64,
                );
            },
            ControlEvent::LastExecutorDiffSet { text } => {
                c.last_executor_diff_payload_bytes =
                c.last_executor_diff_payload_bytes.saturating_add(text.as_str().len() as u64);
            },
            ControlEvent::LastSoloExecutorDiffSet { text } => {
                c.last_executor_diff_payload_bytes =
                c.last_executor_diff_payload_bytes.saturating_add(text.as_str().len() as u64);
            },
            _ => {},
        },
        Event::Effect { event: effect } => match effect {
            EffectEvent::LlmTurnInput { .. } => {
                c.llm_turn_inputs += 1;
            },
            EffectEvent::LlmTurnOutput { action_kind, .. } => {
                c.llm_turn_outputs += 1;
                if action_kind.is_some() {
                    c.llm_action_outputs += 1;
                }
            },
            EffectEvent::ActionResultRecorded { .. } => {
                c.action_results += 1;
            },
            EffectEvent::LlmErrorBoundary { .. } => {
                c.llm_error_boundaries += 1;
            },
            EffectEvent::PromptTruncationRecorded { dropped_bytes, .. } => {
                c.prompt_truncations += 1;
                c.prompt_truncation_dropped_bytes =
                c.prompt_truncation_dropped_bytes.saturating_add(*dropped_bytes as u64);
            },
            EffectEvent::WorkspaceArtifactWriteRequested { .. } => {
                c.artifact_write_requests += 1;
            },
            EffectEvent::WorkspaceArtifactWriteApplied { .. } => {
                c.artifact_write_applies += 1;
            },
            EffectEvent::GitCheckpointBlocked {
                verification_requested,
                rust_sensitive_changes,
                ..
            } => {
                c.git_checkpoint_blocked += 1;
                if *rust_sensitive_changes && !*verification_requested {
                    c.unsafe_checkpoint_attempts += 1;
                }
            },
            EffectEvent::SupervisorRestartRequested { .. } => {
                c.supervisor_restart_requests += 1;
                c.restart_requests_without_child_start += 1;
            },
            EffectEvent::SupervisorChildStarted { .. } => {
                c.supervisor_child_starts += 1;
                c.restart_requests_without_child_start =
                c.restart_requests_without_child_start.saturating_sub(1);
            },
            EffectEvent::RecoverySuppressed { .. } => {
                c.recovery_suppressed += 1;
            },
            _ => {},
        },
    }
}

// ---------------------------------------------------------------------------
// Commands without results, writes without application
// ---------------------------------------------------------------------------

/// The commands of the turn outputs that name an action, in order.
fn action_output_ids(records: &Vec<TlogRecord>) -> (r: Vec<String>)
    ensures
        text::texts(r@) == collected(records@, |e: Event| action_output_id(e)),
{
    let ghost f = |e: Event| action_output_id(e);
    let mut out: Vec<String> = Vec::new();
    let mut i: usize = 0;
    assert(records@.take(0) =~= Seq::<TlogRecord>::empty());
    assert(text::texts(out@) =~= Seq::<Seq<char>>::empty());
    while i < records.len()
        invariant
            i <= records.len(),
            f == |e: Event| action_output_id(e),
            text::texts(out@) == collected(records@.take(i as int), f),
        decreases records.len() - i,
    {
        let ghost before = out@;
        proof {
            assert(records@.take(i + 1).drop_last() =~= records@.take(i as int));
            assert(records@.take(i + 1).last() == records@[i as int]);
        }
        if let Event::Effect { event: effect } = &records[i].event {
            if let EffectEvent::LlmTurnOutput { command_id, action_kind, .. } = effect {
                if action_kind.is_some() {
                    out.push(command_id.clone());
                    assert(text::texts(out@) =~= text::texts(before).push(command_id@));
                }
            }
        }
        i += 1;
    }
    assert(records@.take(i as int) =~= records@);
    out
}

/// The commands of the action results, in order.
fn action_result_ids(records: &Vec<TlogRecord>) -> (r: Vec<String>)
    ensures
        text::texts(r@) == collected(records@, |e: Event| action_result_id(e)),
{
    let ghost f = |e: Event| action_result_id(e);
    let mut out: Vec<String> = Vec::new();
    let mut i: usize = 0;
    assert(records@.take(0) =~= Seq::<TlogRecord>::empty());
    assert(text::texts(out@) =~= Seq::<Seq<char>>::empty());
    while i < records.len()
        invariant
            i <= records.len(),
            f == |e: Event| action_result_id(e),
            text::texts(out@) == collected(records@.take(i as int), f),
        decreases records.len() - i,
    {
        let ghost before = out@;
        proof {
            assert(records@.take(i + 1).drop_last() =~= records@.take(i as int));
            assert(records@.take(i + 1).last() == records@[i as int]);
        }
        if let Event::Effect { event: effect } = &records[i].event {
            if let EffectEvent::ActionResultRecorded { command_id, .. } = effect {
                out.push(command_id.clone());
                assert(text::texts(out@) =~= text::texts(before).push(command_id@));
            }
        }
        i += 1;
    }
    assert(records@.take(i as int) =~= records@);
    out
}

/// The signatures of the requested artifact writes, in order.
fn write_request_signatures(records: &Vec<TlogRecord>) -> (r: Vec<String>)
    ensures
        text::texts(r@) == collected(records@, |e: Event| write_request_signature(e)),
{
    let ghost f = |e: Event| write_request_signature(e);
    let mut out: Vec<String> = Vec::new();
    let mut i: usize = 0;
    assert(records@.take(0) =~= Seq::<TlogRecord>::empty());
    assert(text::texts(out@) =~= Seq::<Seq<char>>::empty());
    while i < records.len()
        invariant
            i <= records.len(),
            f == |e: Event| write_request_signature(e),
            text::texts(out@) == collected(records@.take(i as int), f),
        decreases records.len() - i,
    {
        let ghost before = out@;
        proof {
            assert(records@.take(i + 1).drop_last() =~= records@.take(i as int));
            assert(records@.take(i + 1).last() == records@[i as int]);
        }
        if let Event::Effect { event: effect } = &records[i].event {
            if let EffectEvent::WorkspaceArtifactWriteRequested { signature, .. } = effect {
                out.push(signature.clone());
                assert(text::texts(out@) =~= text::texts(before).push(signature@));
            }
        }
        i += 1;
    }
    assert(records@.take(i as int) =~= records@);
    out
}

/// The signatures of the applied artifact writes, in order.
fn write_applied_signatures(records: &Vec<TlogRecord>) -> (r: Vec<String>)
    ensures
        text::texts(r@) == collected(records@, |e: Event| write_applied_signature(e)),
{
    let ghost f = |e: Event| write_applied_signature(e);
    let mut out: Vec<String> = Vec::new();
    let mut i: usize = 0;
    assert(records@.take(0) =~= Seq::<TlogRecord>::empty());
    assert(text::texts(out@) =~= Seq::<Seq<char>>::empty());
    while i < records.len()
        invariant
            i <= records.len(),
            f == |e: Event| write_applied_signature(e),
            text::texts(out@) == collected(records@.take(i as int), f),
        decreases records.len() - i,
    {
        let ghost before = out@;
        proof {
            assert(records@.take(i + 1).drop_last() =~= records@.take(i as int));
            assert(records@.take(i + 1).last() == records@[i as int]);
        }
        if let Event::Effect { event: effect } = &records[i].event {
            if let EffectEvent::WorkspaceArtifactWriteApplied { signature, .. } = effect {
                out.push(signature.clone());
                assert(text::texts(out@) =~= text::texts(before).push(signature@));
            }
        }
        i += 1;
    }
    assert(records@.take(i as int) =~= records@);
    out
}

/// How many commands with an action have no result.
pub open spec fn missing_results(rs: Seq<TlogRecord>) -> nat {
    collected(rs, |e: Event| action_output_id(e)).to_set().difference(
        collected(rs, |e: Event| action_result_id(e)).to_set(),
    ).len()
}

/// How many requested artifact writes were never applied.
pub open spec fn unapplied_writes(rs: Seq<TlogRecord>) -> nat {
    collected(rs, |e: Event| write_request_signature(e)).to_set().difference(
        collected(rs, |e: Event| write_applied_signature(e)).to_set(),
    ).len()
}

// ---------------------------------------------------------------------------
// Gaps
// ---------------------------------------------------------------------------

/// The number that follows `n` in the sequence.
pub open spec fn next_seq(n: u64) -> u64 {
    tally::capped((n + 1) as nat)
}

/// Every record carries the number that follows the one before it.
pub open spec fn contiguous(rs: Seq<TlogRecord>) -> bool {
    forall|i: int| 1 <= i < rs.len() ==> (#[trigger] rs[i]).seq == next_seq(rs[i - 1].seq)
}

/// How many numbers the records leave out.
pub open spec fn missing_seqs(rs: Seq<TlogRecord>) -> nat
    decreases rs.len(),
{
    if rs.len() < 2 {
        0
    } else {
        let expected = next_seq(rs[rs.len() - 2].seq);
        missing_seqs(rs.drop_last()) + if rs.last().seq > expected {
            (rs.last().seq - expected) as nat
        } else {
            0
        }
    }
}

/// The time between the last record and the one before it.
pub open spec fn last_gap(rs: Seq<TlogRecord>) -> u64
    recommends
        rs.len() >= 2,
{
    let before = rs[rs.len() - 2].ts_ms;
    if rs.last().ts_ms > before {
        (rs.last().ts_ms - before) as u64
    } else {
        0
    }
}

/// The last record came with lag.
pub open spec fn last_lags(rs: Seq<TlogRecord>) -> bool {
    rs.len() >= 2 && TLOG_LAG_GAP_MIN_MS <= last_gap(rs) <= TLOG_LAG_GAP_MAX_MS
}

/// The kind of each record that came with lag and whose kind has the property
/// `p`, with the length of the gap before it.
pub open spec fn lags(rs: Seq<TlogRecord>, p: spec_fn(Seq<char>) -> bool) -> Seq<(Seq<char>, u64)>
    decreases rs.len(),
{
    if rs.len() == 0 {
        Seq::empty()
    } else {
        let before = lags(rs.drop_last(), p);
        let kind = events::kind_text(rs.last().event);
        if last_lags(rs) && p(kind) {
            before.push((kind, last_gap(rs)))
        } else {
            before
        }
    }
}

/// What the gaps of a list add up to.
pub open spec fn gap_sum(gaps: Seq<(Seq<char>, u64)>) -> nat
    decreases gaps.len(),
{
    if gaps.len() == 0 {
        0
    } else {
        gap_sum(gaps.drop_last()) + gaps.last().1 as nat
    }
}

/// The longest gap of a list.
pub open spec fn longest(gaps: Seq<(Seq<char>, u64)>) -> u64
    decreases gaps.len(),
{
    if gaps.len() == 0 {
        0
    } else if gaps.last().1 > longest(gaps.drop_last()) {
        gaps.last().1
    } else {
        longest(gaps.drop_last())
    }
}

/// Lag before a record of this kind is work that nobody waits for by design.
pub open spec fn actionable_lag(kind: Seq<char>) -> bool {
    &&& kind != "llm_turn_output"@
    &&& kind != "llm_error_boundary"@
    &&& kind != "eval_score_recorded"@
    &&& kind != "orchestrator_idle_pulse"@
    &&& kind != "orchestrator_mode_set"@
}

pub open spec fn issues_projection(kind: Seq<char>) -> bool {
    kind == "issues_projection_recorded"@
}

pub open spec fn all_lags(rs: Seq<TlogRecord>) -> Seq<(Seq<char>, u64)> {
    lags(rs, |k: Seq<char>| true)
}

pub open spec fn actionable_lags(rs: Seq<TlogRecord>) -> Seq<(Seq<char>, u64)> {
    lags(rs, |k: Seq<char>| actionable_lag(k))
}

pub open spec fn projection_lags(rs: Seq<TlogRecord>) -> Seq<(Seq<char>, u64)> {
    lags(rs, |k: Seq<char>| issues_projection(k))
}

/// The kind and size of each record.
pub open spec fn payloads(rs: Seq<TlogRecord>) -> Seq<(Seq<char>, u64)> {
    rs.map_values(|r: TlogRecord| (events::kind_text(r.event), r.payload_bytes))
}

fn is_actionable_lag_kind(kind: &str) -> (r: bool)
    ensures
        r == actionable_lag(kind@),
{
    !(same(kind, "llm_turn_output") || same(kind, "llm_error_boundary") || same(
        kind,
        "eval_score_recorded",
    ) || same(kind, "orchestrator_idle_pulse") || same(kind, "orchestrator_mode_set"))
}

/// Gaps of a window of records, in sequence and in time.
#[derive(Debug)]
pub struct GapSignals {
    pub contiguous_seq: bool,
    pub missing_seq_count: u64,
    pub lag_gap_count: usize,
    pub lag_total_ms: u64,
    pub max_event_gap_ms: u64,
    pub issues_projection_lag_count: usize,
    pub issues_projection_lag_ms: u64,
    pub actionable_lag_total_ms: u64,
    pub actionable_lags: Vec<KindAmount>,
    pub payloads: Vec<KindAmount>,
}

impl GapSignals {
    /// Every signal is that of the records `rs`.
    pub open spec fn of(self, rs: Seq<TlogRecord>) -> bool {
        &&& self.contiguous_seq == contiguous(rs)
        &&& self.missing_seq_count == tally::capped(missing_seqs(rs))
        &&& self.lag_gap_count == all_lags(rs).len()
        &&& self.lag_total_ms == tally::capped(gap_sum(all_lags(rs)))
        &&& self.max_event_gap_ms == longest(all_lags(rs))
        &&& self.issues_projection_lag_count == projection_lags(rs).len()
        &&& self.issues_projection_lag_ms == tally::capped(gap_sum(projection_lags(rs)))
        &&& self.actionable_lag_total_ms == tally::capped(gap_sum(actionable_lags(rs)))
        &&& tally::pairs_of(self.actionable_lags@) == actionable_lags(rs)
        &&& tally::pairs_of(self.payloads@) == payloads(rs)
    }
}

/// Measures the gaps of a window of records.
pub fn measure_gaps(records: &Vec<TlogRecord>) -> (r: GapSignals)
    ensures
        r.of(records@),
{
    let mut g = GapSignals {
        contiguous_seq: true,
        missing_seq_count: 0,
        lag_gap_count: 0,
        lag_total_ms: 0,
        max_event_gap_ms: 0,
        issues_projection_lag_count: 0,
        issues_projection_lag_ms: 0,
        actionable_lag_total_ms: 0,
        actionable_lags: Vec::new(),
        payloads: Vec::new(),
    };
    let mut i: usize = 0;
    proof {
        assert(records@.take(0) =~= Seq::<TlogRecord>::empty());
        assert(tally::pairs_of(g.actionable_lags@) =~= Seq::<(Seq<char>, u64)>::empty());
        assert(tally::pairs_of(g.payloads@) =~= payloads(records@.take(0)));
    }
    while i < records.len()
        invariant
            i <= records.len(),
            g.of(records@.take(i as int)),
            g.lag_gap_count <= i,
            g.issues_projection_lag_count <= i,
        decreases records.len() - i,
    {
        let ghost before = records@.take(i as int);
        let ghost now = records@.take(i + 1);
        let ghost old_lags = g.actionable_lags@;
        let ghost old_payloads = g.payloads@;
        proof {
            assert(now.drop_last() =~= before);
            assert(now.last() == records@[i as int]);
            assert(payloads(now) =~= payloads(before).push(
                (events::kind_text(now.last().event), now.last().payload_bytes),
            ));
        }
        let record = &records[i];
        let kind = tlog_event_kind(&record.event);
        g.payloads.push(KindAmount { kind: kind.to_owned(), amount: record.payload_bytes });
        assert(tally::pairs_of(g.payloads@) =~= tally::pairs_of(old_payloads).push(
            (kind@, record.payload_bytes),
        ));
        if i > 0 {
            let prev = &records[i - 1];
            assert(now[now.len() - 2] == records@[i - 1]);
            let expected: u64 = prev.seq.saturating_add(1);
            if record.seq != expected {
                g.contiguous_seq = false;
                g.missing_seq_count = g.missing_seq_count.saturating_add(
                    record.seq.saturating_sub(expected),
                );
            }
            let gap_ms: u64 = record.ts_ms.saturating_sub(prev.ts_ms);
            if TLOG_LAG_GAP_MIN_MS <= gap_ms && gap_ms <= TLOG_LAG_GAP_MAX_MS {
                proof {
                    assert(all_lags(now).drop_last() =~= all_lags(before));
                    assert(projection_lags(now) == projection_lags(before)
                        || projection_lags(now).drop_last() =~= projection_lags(before));
                    assert(actionable_lags(now) == actionable_lags(before)
                        || actionable_lags(now).drop_last() =~= actionable_lags(before));
                }
                g.lag_gap_count += 1;
                g.lag_total_ms = g.lag_total_ms.saturating_add(gap_ms);
                if gap_ms > g.max_event_gap_ms {
                    g.max_event_gap_ms = gap_ms;
                }
                if same(kind, "issues_projection_recorded") {
                    g.issues_projection_lag_count += 1;
                    g.issues_projection_lag_ms = g.issues_projection_lag_ms.saturating_add(gap_ms);
                }
                if is_actionable_lag_kind(kind) {
                    g.actionable_lag_total_ms = g.actionable_lag_total_ms.saturating_add(gap_ms);
                    g.actionable_lags.push(KindAmount { kind: kind.to_owned(), amount: gap_ms });
                    assert(tally::pairs_of(g.actionable_lags@) =~= tally::pairs_of(old_lags).push(
                        (kind@, gap_ms),
                    ));
                }
            }
        }
        proof {
            lemma_contiguous_step(now);
            assert(g.of(now));
        }
        i += 1;
    }
    assert(records@.take(i as int) =~= records@);
    g
}

pub proof fn lemma_contiguous_step(rs: Seq<TlogRecord>)
    requires
        rs.len() > 0,
    ensures
        contiguous(rs) <==> contiguous(rs.drop_last()) && (rs.len() >= 2 ==> rs.last().seq
            == next_seq(rs[rs.len() - 2].seq)),
{
    let front = rs.drop_last();
    if contiguous(rs) {
        assert forall|i: int| 1 <= i < front.len() implies (#[trigger] front[i]).seq == next_seq(
            front[i - 1].seq,
        ) by {
            assert(rs[i].seq == next_seq(rs[i - 1].seq));
        }
        if rs.len() >= 2 {
            assert(rs[rs.len() - 1].seq == next_seq(rs[rs.len() - 2].seq));
        }
    }
    if contiguous(front) && (rs.len() >= 2 ==> rs.last().seq == next_seq(rs[rs.len() - 2].seq)) {
        assert forall|i: int| 1 <= i < rs.len() implies (#[trigger] rs[i]).seq == next_seq(
            rs[i - 1].seq,
        ) by {
            if i < front.len() {
                assert(front[i].seq == next_seq(front[i - 1].seq));
            }
        }
    }
}

// ---------------------------------------------------------------------------
// Improvement attempts
// ---------------------------------------------------------------------------

/// A patch that was applied.
pub open spec fn improves(action: Seq<char>, result: Seq<char>) -> bool {
    let t = text::lower_ascii(result);
    &&& text::trimmed(action) == "apply_patch"@
    &&& text::has_text(t, "apply_patch ok"@) || text::has_text(t, "patch applied successfully"@)
}

pub open spec fn mentions_validation(t: Seq<char>) -> bool {
    ||| text::has_text(t, "cargo check"@)
    ||| text::has_text(t, "cargo test"@)
    ||| text::has_text(t, "cargo build"@)
}

pub open spec fn reports_success(t: Seq<char>) -> bool {
    ||| text::has_text(t, "run_command ok"@)
    ||| text::has_text(t, "status: ok"@)
    ||| text::has_text(t, "cargo check ok"@)
    ||| text::has_text(t, "cargo build ok"@)
    ||| text::has_text(t, "cargo test ok"@)
    ||| text::has_text(t, "test result: ok"@)
}

/// A build, check or test run that succeeded.
pub open spec fn validates(action: Seq<char>, result: Seq<char>) -> bool {
    let a = text::trimmed(action);
    let t = text::lower_ascii(result);
    &&& a == "apply_patch"@ || a == "run_command"@ || a == "cargo_test"@ || a == "batch"@
    &&& mentions_validation(t)
    &&& reports_success(t)
}

/// An evaluation that shows a regression: the first one never does.
pub open spec fn shows_regression(delta: Option<ScoreChange>, promotion_eligible: bool) -> bool {
    match delta {
        Some(change) => change == ScoreChange::Regressed || !promotion_eligible,
        None => false,
    }
}

/// Improvement attempts: `open` wait for an evaluation, `unvalidated` for a
/// successful build, check or test.
pub struct ImprovementView {
    pub attempts: nat,
    pub open: nat,
    pub unvalidated: nat,
    pub validated: nat,
    pub measured: nat,
    pub regressed: nat,
    pub non_regressed: nat,
    pub points: nat,
    pub regressions: nat,
}

/// The improvement attempts after one more event.
pub open spec fn improvement_step(v: ImprovementView, e: Event) -> ImprovementView {
    match e {
        Event::Effect { event: EffectEvent::PostRestartResultRecorded { action, result, .. } } => {
            if improves(action@, result@) {
                if validates(action@, result@) {
                    ImprovementView {
                        attempts: v.attempts + 1,
                        open: v.open + 1,
                        validated: v.validated + 1,
                        ..v
                    }
                } else {
                    ImprovementView {
                        attempts: v.attempts + 1,
                        open: v.open + 1,
                        unvalidated: v.unvalidated + 1,
                        ..v
                    }
                }
            } else if v.unvalidated > 0 && validates(action@, result@) {
                ImprovementView { validated: v.validated + v.unvalidated, unvalidated: 0, ..v }
            } else {
                v
            }
        },
        Event::Effect { event: EffectEvent::EvalScoreRecorded { delta, promotion_eligible } } => {
            if shows_regression(delta, promotion_eligible) {
                ImprovementView {
                    points: v.points + 1,
                    measured: v.measured + v.open,
                    regressed: v.regressed + v.open,
                    open: 0,
                    regressions: v.regressions + 1,
                    ..v
                }
            } else {
                ImprovementView {
                    points: v.points + 1,
                    measured: v.measured + v.open,
                    non_regressed: v.non_regressed + v.open,
                    open: 0,
                    ..v
                }
            }
        },
        _ => v,
    }
}

/// The improvement attempts of the records.
pub open spec fn improvements(rs: Seq<TlogRecord>) -> ImprovementView
    decreases rs.len(),
{
    if rs.len() == 0 {
        ImprovementView {
            attempts: 0,
            open: 0,
            unvalidated: 0,
            validated: 0,
            measured: 0,
            regressed: 0,
            non_regressed: 0,
            points: 0,
            regressions: 0,
        }
    } else {
        improvement_step(improvements(rs.drop_last()), rs.last().event)
    }
}

/// Every improvement attempt is measured or still open, validated or still
/// unvalidated; every measured one regressed or did not.
pub proof fn law_improvement_attempts_add_up(rs: Seq<TlogRecord>)
    ensures
        improvements(rs).attempts == improvements(rs).measured + improvements(rs).open,
        improvements(rs).attempts == improvements(rs).validated + improvements(rs).unvalidated,
        improvements(rs).measured == improvements(rs).regressed + improvements(rs).non_regressed,
        improvements(rs).attempts <= rs.len(),
        improvements(rs).points <= rs.len(),
        improvements(rs).regressions <= improvements(rs).points,
    decreases rs.len(),
{
    if rs.len() > 0 {
        law_improvement_attempts_add_up(rs.drop_last());
    }
}

fn is_successful_improvement_action(action: &str, result: &str) -> (r: bool)
    ensures
        r == improves(action@, result@),
{
    let action = trim(action);
    if !same(action.as_str(), "apply_patch") {
        return false;
    }
    let t = to_ascii_lower(result);
    contains(t.as_str(), "apply_patch ok") || contains(t.as_str(), "patch applied successfully")
}

fn is_improvement_validation_result(action: &str, result: &str) -> (r: bool)
    ensures
        r == validates(action@, result@),
{
    let action = trim(action);
    let a = action.as_str();
    if !(same(a, "apply_patch") || same(a, "run_command") || same(a, "cargo_test") || same(
        a,
        "batch",
    )) {
        return false;
    }
    let lowered = to_ascii_lower(result);
    let t = lowered.as_str();
    let mentioned = contains(t, "cargo check") || contains(t, "cargo test") || contains(
        t,
        "cargo build",
    );
    let succeeded = contains(t, "run_command ok") || contains(t, "status: ok") || contains(
        t,
        "cargo check ok",
    ) || contains(t, "cargo build ok") || contains(t, "cargo test ok") || contains(
        t,
        "test result: ok",
    );
    mentioned && succeeded
}

/// Whether an evaluation shows a regression.
pub fn eval_measurement_regressed(delta: Option<ScoreChange>, promotion_eligible: bool) -> (r: bool)
    ensures
        r == shows_regression(delta, promotion_eligible),
{
    match delta {
        Some(change) => change == ScoreChange::Regressed || !promotion_eligible,
        None => false,
    }
}

/// Improvement attempts of a window of records.
#[derive(Debug)]
pub struct ImprovementTally {
    pub attempts: usize,
    pub open: usize,
    pub unvalidated: usize,
    pub validated: usize,
    pub measured: usize,
    pub regressed: usize,
    pub non_regressed: usize,
    pub points: usize,
    pub regressions: usize,
}

impl View for ImprovementTally {
    type V = ImprovementView;

    open spec fn view(&self) -> ImprovementView {
        ImprovementView {
            attempts: self.attempts as nat,
            open: self.open as nat,
            unvalidated: self.unvalidated as nat,
            validated: self.validated as nat,
            measured: self.measured as nat,
            regressed: self.regressed as nat,
            non_regressed: self.non_regressed as nat,
            points: self.points as nat,
            regressions: self.regressions as nat,
        }
    }
}

/// Follows the improvement attempts through a window of records.
pub fn tally_improvements(records: &Vec<TlogRecord>) -> (r: ImprovementTally)
    ensures
        r@ == improvements(records@),
{
    let mut v = ImprovementTally {
        attempts: 0,
        open: 0,
        unvalidated: 0,
        validated: 0,
        measured: 0,
        regressed: 0,
        non_regressed: 0,
        points: 0,
        regressions: 0,
    };
    let mut i: usize = 0;
    assert(records@.take(0) =~= Seq::<TlogRecord>::empty());
    while i < records.len()
        invariant
            i <= records.len(),
            v@ == improvements(records@.take(i as int)),
        decreases records.len() - i,
    {
        proof {
            assert(records@.take(i + 1).drop_last() =~= records@.take(i as int));
            assert(records@.take(i + 1).last() == records@[i as int]);
            law_improvement_attempts_add_up(records@.take(i as int));
        }
        if let Event::Effect { event: effect } = &records[i].event {
            match effect {
                EffectEvent::PostRestartResultRecorded { action, result, .. } => {
                    if is_successful_improvement_action(action.as_str(), result.as_str()) {
                        v.attempts += 1;
                        v.open += 1;
                        if is_improvement_validation_result(action.as_str(), result.as_str()) {
                            v.validated += 1;
                        } else {
                            v.unvalidated += 1;
                        }
                    } else if v.unvalidated > 0 && is_improvement_validation_result(
                        action.as_str(),
                        result.as_str(),
                    ) {
                        v.validated += v.unvalidated;
                        v.unvalidated = 0;
                    }
                },
                EffectEvent::EvalScoreRecorded { delta, promotion_eligible } => {
                    let regressed = eval_measurement_regressed(*delta, *promotion_eligible);
                    v.points += 1;
                    v.measured += v.open;
                    if regressed {
                        v.regressed += v.open;
                        v.regressions += 1;
                    } else {
                        v.non_regressed += v.open;
                    }
                    v.open = 0;
                },
                _ => {},
            }
        }
        i += 1;
    }
    assert(records@.take(i as int) =~= records@);
    v
}

// ---------------------------------------------------------------------------
// Recoveries
// ---------------------------------------------------------------------------

/// The records behind the one at `i` that decide how its recovery ended.
pub open spec fn recovery_window(rs: Seq<TlogRecord>, i: int) -> Seq<TlogRecord> {
    let end = if rs.len() < i + 1 + RECOVERY_EVAL_WINDOW_EVENTS {
        rs.len() as int
    } else {
        i + 1 + RECOVERY_EVAL_WINDOW_EVENTS
    };
    rs.subrange(i + 1, end)
}

/// How a recovery ended, as recorded.
#[derive(Debug, Clone, Copy, PartialEq, Eq, Structural)]
pub struct RecoveryOutcome {
    pub success: bool,
    pub failure_count_before: usize,
    pub failure_count_after: usize,
    pub progress_event_seen: bool,
}

/// The recorded outcome of a recovery of `class`, where `e` is one.
pub open spec fn outcome_of(e: Event, class: Seq<char>) -> Option<RecoveryOutcome> {
    match e {
        Event::Effect {
            event: EffectEvent::RecoveryOutcomeRecorded {
                class: outcome_class,
                success,
                failure_count_before,
                failure_count_after,
                progress_event_seen,
                ..
            },
        } => if outcome_class@ == class {
            Some(
                RecoveryOutcome {
                    success,
                    failure_count_before,
                    failure_count_after,
                    progress_event_seen,
                },
            )
        } else {
            None
        },
        _ => None,
    }
}

/// The first recorded outcome of a recovery of `class` in a window.
pub open spec fn first_outcome(window: Seq<TlogRecord>, class: Seq<char>) -> Option<RecoveryOutcome>
    decreases window.len(),
{
    if window.len() == 0 {
        None
    } else {
        match outcome_of(window.first().event, class) {
            Some(outcome) => Some(outcome),
            None => first_outcome(window.drop_first(), class),
        }
    }
}

/// An event that shows the system moving again.
pub open spec fn shows_progress(e: Event) -> bool {
    match e {
        Event::Control { event: ControlEvent::PlannerPendingSet { pending } } => pending,
        Event::Control { event: ControlEvent::ScheduledPhaseSet { phase: Some(phase) } } => phase@
            == "planner"@,
        Event::Effect { event: EffectEvent::ActionResultRecorded { ok, .. } } => ok,
        Event::Effect { event: EffectEvent::WorkspaceArtifactWriteApplied { .. } } => true,
        Event::Effect { event: EffectEvent::ProjectionRefreshRecoveryRequested { .. } } => true,
        Event::Effect {
            event: EffectEvent::EvalScoreRecorded { delta, promotion_eligible },
        } => promotion_eligible || delta == Some(ScoreChange::NonNegative),
        _ => false,
    }
}

/// The words `t` of a violation, in lower case, belong to a failure of `class`.
pub open spec fn words_of_class(t: Seq<char>, class: Seq<char>) -> bool {
    if class == "missing_target"@ {
        text::has_text(t, "does not exist"@) || text::has_text(t, "missing_target"@)
    } else if class == "invalid_route"@ {
        text::has_text(t, "invalid_route"@)
    } else if class == "llm_timeout"@ {
        text::has_text(t, "timeout"@)
    } else if class == "compile_error"@ {
        text::has_text(t, "cargo"@) || text::has_text(t, "compile"@)
    } else if class == "verification_failed"@ {
        text::has_text(t, "verification"@)
    } else if class == "projection_refresh_stalled"@ {
        text::has_text(t, "projection refresh stalled"@) || text::has_text(t, "projection remains stale"@) || text::has_text(t, "stale latest.json"@) || text::has_text(t, "latest.json remains stale"@) || text::has_text(t, "long-running regeneration"@) || text::has_text(t, "refresh pid"@)
    } else if class == "invalid_schema"@ {
        text::has_text(t, "schema"@)
    } else if class == "step_limit_exceeded"@ {
        text::has_text(t, "step limit"@) || text::has_text(t, "step budget"@)
    } else if class == "checkpoint_runtime_divergence"@ {
        text::has_text(t, "checkpoint"@)
    } else if class == "reaction_only"@ {
        text::has_text(t, "reaction_only"@) || text::has_text(t, "prose-only"@)
    } else {
        false
    }
}

/// An event that shows the failure of `class` again.
pub open spec fn shows_failure(e: Event, class: Seq<char>) -> bool {
    match e {
        Event::Effect { event: EffectEvent::InvariantViolation { proposed_role, reason } } =>
        proposed_role@ == "executor"@ && words_of_class(text::lower_ascii(reason@), class),
        Event::Effect {
            event: EffectEvent::RecoveryOutcomeRecorded { class: outcome_class, success, .. },
        } => !success && outcome_class@ == class,
        _ => false,
    }
}

/// The class of the recovery that the record at `i` triggers.
pub open spec fn triggered_class(e: Event) -> Option<Seq<char>> {
    match e {
        Event::Effect { event: EffectEvent::RecoveryTriggered { class, .. } } => Some(class@),
        _ => None,
    }
}

/// The class of the recovery that the record at `i` suppresses.
pub open spec fn suppressed_class(e: Event) -> Option<Seq<char>> {
    match e {
        Event::Effect { event: EffectEvent::RecoverySuppressed { class, .. } } => Some(class@),
        _ => None,
    }
}

/// How many failures had called for the recovery.
pub open spec fn trigger_support(e: Event) -> usize {
    match e {
        Event::Effect { event: EffectEvent::RecoveryTriggered { support_count, .. } } =>
        support_count,
        _ => 0,
    }
}

/// Some record of the window shows progress.
pub open spec fn progresses(window: Seq<TlogRecord>) -> bool {
    exists|i: int| 0 <= i < window.len() && shows_progress((#[trigger] window[i]).event)
}

/// Some record of the window shows the failure of `class` again.
pub open spec fn fails_again(window: Seq<TlogRecord>, class: Seq<char>) -> bool {
    exists|i: int| 0 <= i < window.len() && shows_failure((#[trigger] window[i]).event, class)
}

/// How a triggered or suppressed recovery is scored: not at all, or as a success
/// or a failure, and as a broken loop or not.
#[derive(Debug, Clone, Copy, PartialEq, Eq, Structural)]
pub struct RecoveryScore {
    pub scored: bool,
    pub success: bool,
    pub loop_break: bool,
}

/// The score of a recorded outcome.
pub open spec fn outcome_score(outcome: RecoveryOutcome) -> RecoveryScore {
    RecoveryScore {
        scored: true,
        success: outcome.success,
        loop_break: outcome.success && (outcome.failure_count_after < outcome.failure_count_before
            || outcome.progress_event_seen),
    }
}

/// The score of the recovery that the record at `i` triggers or suppresses. A
/// recorded outcome decides; without one a triggered recovery succeeded where
/// progress and no failure of its class followed.
pub open spec fn recovery_score(rs: Seq<TlogRecord>, i: int) -> RecoveryScore {
    let none = RecoveryScore { scored: false, success: false, loop_break: false };
    let e = rs[i].event;
    let window = recovery_window(rs, i);
    match triggered_class(e) {
        Some(class) => match first_outcome(window, class) {
            Some(outcome) => outcome_score(outcome),
            None => {
                let success = progresses(window) && !fails_again(window, class);
                RecoveryScore {
                    scored: true,
                    success,
                    loop_break: success && trigger_support(e) > 0,
                }
            },
        },
        None => match suppressed_class(e) {
            Some(class) => match first_outcome(window, class) {
                Some(outcome) => outcome_score(outcome),
                None => none,
            },
            None => none,
        },
    }
}

/// Recoveries of a window of records.
pub struct RecoveryView {
    pub attempts: nat,
    pub successes: nat,
    pub failures: nat,
    pub loop_breaks: nat,
    pub suppressed_scored: nat,
}

/// The recoveries of the first `n` records, each scored by what follows it.
pub open spec fn recoveries(rs: Seq<TlogRecord>, n: int) -> RecoveryView
    decreases n,
{
    if n <= 0 {
        RecoveryView { attempts: 0, successes: 0, failures: 0, loop_breaks: 0, suppressed_scored: 0 }
    } else {
        let before = recoveries(rs, n - 1);
        let score = recovery_score(rs, n - 1);
        let triggered = triggered_class(rs[n - 1].event) is Some;
        RecoveryView {
            attempts: before.attempts + if triggered { 1nat } else { 0 },
            successes: before.successes + if score.scored && score.success { 1nat } else { 0 },
            failures: before.failures + if score.scored && !score.success { 1nat } else { 0 },
            loop_breaks: before.loop_breaks + if score.scored && score.loop_break {
                1nat
            } else {
                0
            },
            suppressed_scored: before.suppressed_scored + if !triggered && score.scored {
                1nat
            } else {
                0
            },
        }
    }
}

/// Every triggered recovery, and every suppressed one with a recorded outcome,
/// is a success or a failure; only a success breaks a loop.
pub proof fn law_recoveries_add_up(rs: Seq<TlogRecord>, n: int)
    ensures
        ({
            let v = recoveries(rs, n);
            &&& v.attempts + v.suppressed_scored == v.successes + v.failures
            &&& v.loop_breaks <= v.successes
            &&& n >= 0 ==> v.successes + v.failures <= n
        }),
    decreases n,
{
    if n > 0 {
        law_recoveries_add_up(rs, n - 1);
    }
}

/// Recoveries of a window of records.
#[derive(Debug)]
pub struct RecoveryTally {
    pub attempts: usize,
    pub successes: usize,
    pub failures: usize,
    pub loop_breaks: usize,
    pub suppressed_scored: usize,
}

impl View for RecoveryTally {
    type V = RecoveryView;

    open spec fn view(&self) -> RecoveryView {
        RecoveryView {
            attempts: self.attempts as nat,
            successes: self.successes as nat,
            failures: self.failures as nat,
            loop_breaks: self.loop_breaks as nat,
            suppressed_scored: self.suppressed_scored as nat,
        }
    }
}

fn recovery_reason_matches_class(t: &str, class: &str) -> (r: bool)
    ensures
        r == words_of_class(t@, class@),
{
    if same(class, "missing_target") {
        contains(t, "does not exist") || contains(t, "missing_target")
    } else if same(class, "invalid_route") {
        contains(t, "invalid_route")
    } else if same(class, "llm_timeout") {
        contains(t, "timeout")
    } else if same(class, "compile_error") {
        contains(t, "cargo") || contains(t, "compile")
    } else if same(class, "verification_failed") {
        contains(t, "verification")
    } else if same(class, "projection_refresh_stalled") {
        contains(t, "projection refresh stalled") || contains(t, "projection remains stale") || contains(t, "stale latest.json") || contains(t, "latest.json remains stale") || contains(t, "long-running regeneration") || contains(t, "refresh pid")
    } else if same(class, "invalid_schema") {
        contains(t, "schema")
    } else if same(class, "step_limit_exceeded") {
        contains(t, "step limit") || contains(t, "step budget")
    } else if same(class, "checkpoint_runtime_divergence") {
        contains(t, "checkpoint")
    } else if same(class, "reaction_only") {
        contains(t, "reaction_only") || contains(t, "prose-only")
    } else {
        false
    }
}

fn recovery_progress_event_seen(event: &Event) -> (r: bool)
    ensures
        r == shows_progress(*event),
{
    match event {
        Event::Control { event: control } => match control {
            ControlEvent::PlannerPendingSet { pending } => *pending,
            ControlEvent::ScheduledPhaseSet { phase } => match phase {
                Some(phase) => same(phase.as_str(), "planner"),
                None => false,
            },
            _ => false,
        },
        Event::Effect { event: effect } => match effect {
            EffectEvent::ActionResultRecorded { ok, .. } => *ok,
            EffectEvent::WorkspaceArtifactWriteApplied { .. } => true,
            EffectEvent::ProjectionRefreshRecoveryRequested { .. } => true,
            EffectEvent::EvalScoreRecorded { delta, promotion_eligible } => {
                *promotion_eligible || match delta {
                    Some(change) => *change == ScoreChange::NonNegative,
                    None => false,
                }
            },
            _ => false,
        },
    }
}

fn recovery_same_class_failure_seen(event: &Event, class: &str) -> (r: bool)
    ensures
        r == shows_failure(*event, class@),
{
    match event {
        Event::Effect { event: effect } => match effect {
            EffectEvent::InvariantViolation { proposed_role, reason } => {
                same(proposed_role.as_str(), "executor") && recovery_reason_matches_class(
                    to_ascii_lower(reason.as_str()).as_str(),
                    class,
                )
            },
            EffectEvent::RecoveryOutcomeRecorded { class: outcome_class, success, .. } => {
                !*success && same(outcome_class.as_str(), class)
            },
            _ => false,
        },
        Event::Control { .. } => false,
    }
}

/// The recorded outcome of a recovery of `class`, where `event` is one.
fn recorded_outcome(event: &Event, class: &str) -> (r: Option<RecoveryOutcome>)
    ensures
        r == outcome_of(*event, class@),
{
    match event {
        Event::Effect { event: effect } => match effect {
            EffectEvent::RecoveryOutcomeRecorded {
                class: outcome_class,
                success,
                failure_count_before,
                failure_count_after,
                progress_event_seen,
                ..
            } => {
                if same(outcome_class.as_str(), class) {
                    Some(
                        RecoveryOutcome {
                            success: *success,
                            failure_count_before: *failure_count_before,
                            failure_count_after: *failure_count_after,
                            progress_event_seen: *progress_event_seen,
                        },
                    )
                } else {
                    None
                }
            },
            _ => None,
        },
        Event::Control { .. } => None,
    }
}

/// The first recorded outcome of a recovery of `class` in `records[from..to]`.
fn explicit_recovery_outcome(
    records: &Vec<TlogRecord>,
    from: usize,
    to: usize,
    class: &str,
) -> (r: Option<RecoveryOutcome>)
    requires
        from <= to <= records.len(),
    ensures
        r == first_outcome(records@.subrange(from as int, to as int), class@),
{
    let mut k: usize = from;
    while k < to
        invariant
            from <= k <= to <= records.len(),
            first_outcome(records@.subrange(from as int, to as int), class@) == first_outcome(
                records@.subrange(k as int, to as int),
                class@,
            ),
        decreases to - k,
    {
        proof {
            let rest = records@.subrange(k as int, to as int);
            assert(rest.first() == records@[k as int]);
            assert(rest.drop_first() =~= records@.subrange(k + 1, to as int));
        }
        if let Some(outcome) = recorded_outcome(&records[k].event, class) {
            return Some(outcome);
        }
        k += 1;
    }
    None
}

/// The end of the window behind the record at `i`.
fn window_end(records: &Vec<TlogRecord>, i: usize) -> (r: usize)
    requires
        i < records.len(),
    ensures
        i + 1 <= r <= records.len(),
        records@.subrange(i + 1, r as int) == recovery_window(records@, i as int),
{
    let left: usize = records.len() - i - 1;
    if left < RECOVERY_EVAL_WINDOW_EVENTS {
        records.len()
    } else {
        i + 1 + RECOVERY_EVAL_WINDOW_EVENTS
    }
}

/// Scores the recovery that the record at `i` triggers or suppresses.
fn score_recovery(records: &Vec<TlogRecord>, i: usize) -> (r: RecoveryScore)
    requires
        i < records.len(),
    ensures
        r == recovery_score(records@, i as int),
{
    let none = RecoveryScore { scored: false, success: false, loop_break: false };
    let (class, triggered, support): (&String, bool, usize) = match &records[i].event {
        Event::Effect { event: effect } => match effect {
            EffectEvent::RecoveryTriggered { class, support_count, .. } => (
                class,
                true,
                *support_count,
            ),
            EffectEvent::RecoverySuppressed { class, .. } => (class, false, 0),
            _ => {
                return none;
            },
        },
        Event::Control { .. } => {
            return none;
        },
    };
    let from: usize = i + 1;
    let to: usize = window_end(records, i);
    let ghost window = recovery_window(records@, i as int);
    if let Some(outcome) = explicit_recovery_outcome(records, from, to, class.as_str()) {
        return RecoveryScore {
            scored: true,
            success: outcome.success,
            loop_break: outcome.success && (outcome.failure_count_after
                < outcome.failure_count_before || outcome.progress_event_seen),
        };
    }
    if !triggered {
        return none;
    }
    let mut progress = false;
    let mut failure = false;
    let mut k: usize = from;
    while k < to
        invariant
            from == i + 1,
            from <= k <= to <= records.len(),
            window == records@.subrange(from as int, to as int),
            progress == exists|j: int|
                0 <= j < k - from && shows_progress((#[trigger] window[j]).event),
            failure == exists|j: int|
                0 <= j < k - from && shows_failure((#[trigger] window[j]).event, class@),
        decreases to - k,
    {
        let ghost j = k - from;
        assert(window[j] == records@[k as int]);
        if recovery_progress_event_seen(&records[k].event) {
            assert(shows_progress(window[j].event));
            progress = true;
        }
        if recovery_same_class_failure_seen(&records[k].event, class.as_str()) {
            assert(shows_failure(window[j].event, class@));
            failure = true;
        }
        k += 1;
    }
    let success = progress && !failure;
    RecoveryScore { scored: true, success, loop_break: success && support > 0 }
}

/// Scores the recoveries of a window of records.
pub fn tally_recoveries(records: &Vec<TlogRecord>) -> (r: RecoveryTally)
    ensures
        r@ == recoveries(records@, records@.len() as int),
{
    let mut v = RecoveryTally {
        attempts: 0,
        successes: 0,
        failures: 0,
        loop_breaks: 0,
        suppressed_scored: 0,
    };
    let mut i: usize = 0;
    while i < records.len()
        invariant
            i <= records.len(),
            v@ == recoveries(records@, i as int),
        decreases records.len() - i,
    {
        proof {
            law_recoveries_add_up(records@, i as int);
        }
        let score = score_recovery(records, i);
        let triggered = is_trigger(&records[i].event);
        if triggered {
            v.attempts += 1;
        }
        if score.scored {
            if score.success {
                v.successes += 1;
            } else {
                v.failures += 1;
            }
            if score.loop_break {
                v.loop_breaks += 1;
            }
            if !triggered {
                v.suppressed_scored += 1;
            }
        }
        i += 1;
    }
    v
}

fn is_trigger(event: &Event) -> (r: bool)
    ensures
        r == (triggered_class(*event) is Some),
{
    match event {
        Event::Effect { event: effect } => match effect {
            EffectEvent::RecoveryTriggered { .. } => true,
            _ => false,
        },
        Event::Control { .. } => false,
    }
}

// ---------------------------------------------------------------------------
// Signals
// ---------------------------------------------------------------------------

/// Everything that a window of the transition log shows.
#[derive(Debug)]
pub struct TlogDeltaSignals {
    pub event_count: usize,
    pub contiguous_seq: bool,
    pub missing_seq_count: u64,
    pub lag_gap_count: usize,
    pub lag_total_ms: u64,
    pub max_event_gap_ms: u64,
    pub actionable_lag_gap_count: usize,
    pub actionable_lag_total_ms: u64,
    pub dominant_actionable_lag_kind: String,
    pub dominant_actionable_lag_kind_ms: u64,
    pub issues_projection_lag_ms: u64,
    pub issues_projection_lag_count: usize,
    pub dominant_payload_kind: String,
    pub dominant_payload_kind_bytes: u64,
    pub last_plan_text_payload_bytes: u64,
    pub last_executor_diff_payload_bytes: u64,
    pub llm_turn_inputs: usize,
    pub llm_turn_outputs: usize,
    pub llm_action_outputs: usize,
    pub action_results: usize,
    pub missing_action_results: usize,
    pub llm_error_boundaries: usize,
    pub artifact_write_requests: usize,
    pub artifact_write_applies: usize,
    pub unapplied_artifact_writes: usize,
    pub git_checkpoint_blocked: usize,
    pub unsafe_checkpoint_attempts: usize,
    pub prompt_truncations: usize,
    pub prompt_truncation_dropped_bytes: u64,
    pub supervisor_restart_requests: usize,
    pub supervisor_child_starts: usize,
    pub restart_requests_without_child_start: usize,
    pub improvement_attempts: usize,
    pub measured_improvement_attempts: usize,
    pub unmeasured_improvement_attempts: usize,
    pub validated_improvement_attempts: usize,
    pub unvalidated_improvement_attempts: usize,
    pub non_regressed_improvement_attempts: usize,
    pub regressed_improvement_attempts: usize,
    pub eval_measurement_points: usize,
    pub measurement_regressions: usize,
    pub recovery_attempts: usize,
    pub recovery_successes: usize,
    pub recovery_failures: usize,
    pub recovery_suppressed: usize,
    pub recovery_loop_breaks: usize,
    pub recovery_regressions: usize,
    pub recovery_measurement_points: usize,
}

impl TlogDeltaSignals {
    /// Every signal is what the records `rs` show.
    pub open spec fn of(self, rs: Seq<TlogRecord>) -> bool {
        let improved = improvements(rs);
        let recovered = recoveries(rs, rs.len() as int);
        &&& self.event_count == rs.len()
        &&& self.contiguous_seq == contiguous(rs)
        &&& self.missing_seq_count == tally::capped(missing_seqs(rs))
        &&& self.lag_gap_count == all_lags(rs).len()
        &&& self.lag_total_ms == tally::capped(gap_sum(all_lags(rs)))
        &&& self.max_event_gap_ms == longest(all_lags(rs))
        &&& self.actionable_lag_gap_count == actionable_lags(rs).len()
        &&& self.actionable_lag_total_ms == tally::capped(gap_sum(actionable_lags(rs)))
        &&& tally::dominates(
            actionable_lags(rs),
            self.dominant_actionable_lag_kind@,
            self.dominant_actionable_lag_kind_ms,
        )
        &&& self.issues_projection_lag_count == projection_lags(rs).len()
        &&& self.issues_projection_lag_ms == tally::capped(gap_sum(projection_lags(rs)))
        &&& tally::dominates(
            payloads(rs),
            self.dominant_payload_kind@,
            self.dominant_payload_kind_bytes,
        )
        &&& self.last_plan_text_payload_bytes == tally::capped(
            total(rs, |e: Event| plan_text_bytes(e)),
        )
        &&& self.last_executor_diff_payload_bytes == tally::capped(
            total(rs, |e: Event| executor_diff_bytes(e)),
        )
        &&& self.llm_turn_inputs == count(rs, |e: Event| is_turn_input(e))
        &&& self.llm_turn_outputs == count(rs, |e: Event| is_turn_output(e))
        &&& self.llm_action_outputs == count(rs, |e: Event| is_action_output(e))
        &&& self.action_results == count(rs, |e: Event| is_action_result(e))
        &&& self.missing_action_results == missing_results(rs)
        &&& self.llm_error_boundaries == count(rs, |e: Event| is_error_boundary(e))
        &&& self.artifact_write_requests == count(rs, |e: Event| is_write_request(e))
        &&& self.artifact_write_applies == count(rs, |e: Event| is_write_applied(e))
        &&& self.unapplied_artifact_writes == unapplied_writes(rs)
        &&& self.git_checkpoint_blocked == count(rs, |e: Event| is_checkpoint_blocked(e))
        &&& self.unsafe_checkpoint_attempts == count(rs, |e: Event| is_unsafe_checkpoint(e))
        &&& self.prompt_truncations == count(rs, |e: Event| is_truncation(e))
        &&& self.prompt_truncation_dropped_bytes == tally::capped(
            total(rs, |e: Event| dropped_by_truncation(e)),
        )
        &&& self.supervisor_restart_requests == count(rs, |e: Event| is_restart_request(e))
        &&& self.supervisor_child_starts == count(rs, |e: Event| is_child_start(e))
        &&& self.restart_requests_without_child_start == unanswered_restarts(rs)
        &&& self.improvement_attempts == improved.attempts
        &&& self.measured_improvement_attempts == improved.measured
        &&& self.unmeasured_improvement_attempts == improved.open
        &&& self.validated_improvement_attempts == improved.validated
        &&& self.unvalidated_improvement_attempts == improved.unvalidated
        &&& self.non_regressed_improvement_attempts == improved.non_regressed
        &&& self.regressed_improvement_attempts == improved.regressed
        &&& self.eval_measurement_points == improved.points
        &&& self.measurement_regressions == improved.regressions
        &&& self.recovery_attempts == recovered.attempts
        &&& self.recovery_successes == recovered.successes
        &&& self.recovery_failures == recovered.failures
        &&& self.recovery_suppressed == count(rs, |e: Event| is_recovery_suppressed(e))
        &&& self.recovery_loop_breaks == recovered.loop_breaks
        &&& self.recovery_regressions == recovered.failures
        &&& self.recovery_measurement_points == recovered.attempts
    }

    /// The signals once more.
    pub fn copy(&self) -> (r: TlogDeltaSignals)
        ensures
            r == *self,
    {
        TlogDeltaSignals {
            event_count: self.event_count,
            contiguous_seq: self.contiguous_seq,
            missing_seq_count: self.missing_seq_count,
            lag_gap_count: self.lag_gap_count,
            lag_total_ms: self.lag_total_ms,
            max_event_gap_ms: self.max_event_gap_ms,
            actionable_lag_gap_count: self.actionable_lag_gap_count,
            actionable_lag_total_ms: self.actionable_lag_total_ms,
            dominant_actionable_lag_kind: self.dominant_actionable_lag_kind.clone(),
            dominant_actionable_lag_kind_ms: self.dominant_actionable_lag_kind_ms,
            issues_projection_lag_ms: self.issues_projection_lag_ms,
            issues_projection_lag_count: self.issues_projection_lag_count,
            dominant_payload_kind: self.dominant_payload_kind.clone(),
            dominant_payload_kind_bytes: self.dominant_payload_kind_bytes,
            last_plan_text_payload_bytes: self.last_plan_text_payload_bytes,
            last_executor_diff_payload_bytes: self.last_executor_diff_payload_bytes,
            llm_turn_inputs: self.llm_turn_inputs,
            llm_turn_outputs: self.llm_turn_outputs,
            llm_action_outputs: self.llm_action_outputs,
            action_results: self.action_results,
            missing_action_results: self.missing_action_results,
            llm_error_boundaries: self.llm_error_boundaries,
            artifact_write_requests: self.artifact_write_requests,
            artifact_write_applies: self.artifact_write_applies,
            unapplied_artifact_writes: self.unapplied_artifact_writes,
            git_checkpoint_blocked: self.git_checkpoint_blocked,
            unsafe_checkpoint_attempts: self.unsafe_checkpoint_attempts,
            prompt_truncations: self.prompt_truncations,
            prompt_truncation_dropped_bytes: self.prompt_truncation_dropped_bytes,
            supervisor_restart_requests: self.supervisor_restart_requests,
            supervisor_child_starts: self.supervisor_child_starts,
            restart_requests_without_child_start: self.restart_requests_without_child_start,
            improvement_attempts: self.improvement_attempts,
            measured_improvement_attempts: self.measured_improvement_attempts,
            unmeasured_improvement_attempts: self.unmeasured_improvement_attempts,
            validated_improvement_attempts: self.validated_improvement_attempts,
            unvalidated_improvement_attempts: self.unvalidated_improvement_attempts,
            non_regressed_improvement_attempts: self.non_regressed_improvement_attempts,
            regressed_improvement_attempts: self.regressed_improvement_attempts,
            eval_measurement_points: self.eval_measurement_points,
            measurement_regressions: self.measurement_regressions,
            recovery_attempts: self.recovery_attempts,
            recovery_successes: self.recovery_successes,
            recovery_failures: self.recovery_failures,
            recovery_suppressed: self.recovery_suppressed,
            recovery_loop_breaks: self.recovery_loop_breaks,
            recovery_regressions: self.recovery_regressions,
            recovery_measurement_points: self.recovery_measurement_points,
        }
    }
}

/// What a window of the transition log shows.
pub fn evaluate_tlog_delta_invariants(records: &Vec<TlogRecord>) -> (r: TlogDeltaSignals)
    ensures
        r.of(records@),
{
    let counts = count_events(records);
    let gaps = measure_gaps(records);
    let improved = tally_improvements(records);
    let recovered = tally_recoveries(records);
    let missing_action_results: usize = unmatched_count(
        &action_output_ids(records),
        &action_result_ids(records),
    );
    let unapplied_artifact_writes: usize = unmatched_count(
        &write_request_signatures(records),
        &write_applied_signatures(records),
    );
    let actionable_lag_gap_count: usize = gaps.actionable_lags.len();
    assert(tally::pairs_of(gaps.actionable_lags@).len() == actionable_lag_gap_count);
    let (lag_kind, lag_kind_ms): (String, u64) = dominant(gaps.actionable_lags);
    let (payload_kind, payload_kind_bytes): (String, u64) = dominant(gaps.payloads);
    TlogDeltaSignals {
        event_count: records.len(),
        contiguous_seq: gaps.contiguous_seq,
        missing_seq_count: gaps.missing_seq_count,
        lag_gap_count: gaps.lag_gap_count,
        lag_total_ms: gaps.lag_total_ms,
        max_event_gap_ms: gaps.max_event_gap_ms,
        actionable_lag_gap_count,
        actionable_lag_total_ms: gaps.actionable_lag_total_ms,
        dominant_actionable_lag_kind: lag_kind,
        dominant_actionable_lag_kind_ms: lag_kind_ms,
        issues_projection_lag_ms: gaps.issues_projection_lag_ms,
        issues_projection_lag_count: gaps.issues_projection_lag_count,
        dominant_payload_kind: payload_kind,
        dominant_payload_kind_bytes: payload_kind_bytes,
        last_plan_text_payload_bytes: counts.last_plan_text_payload_bytes,
        last_executor_diff_payload_bytes: counts.last_executor_diff_payload_bytes,
        llm_turn_inputs: counts.llm_turn_inputs,
        llm_turn_outputs: counts.llm_turn_outputs,
        llm_action_outputs: counts.llm_action_outputs,
        action_results: counts.action_results,
        missing_action_results,
        llm_error_boundaries: counts.llm_error_boundaries,
        artifact_write_requests: counts.artifact_write_requests,
        artifact_write_applies: counts.artifact_write_applies,
        unapplied_artifact_writes,
        git_checkpoint_blocked: counts.git_checkpoint_blocked,
        unsafe_checkpoint_attempts: counts.unsafe_checkpoint_attempts,
        prompt_truncations: counts.prompt_truncations,
        prompt_truncation_dropped_bytes: counts.prompt_truncation_dropped_bytes,
        supervisor_restart_requests: counts.supervisor_restart_requests,
        supervisor_child_starts: counts.supervisor_child_starts,
        restart_requests_without_child_start: counts.restart_requests_without_child_start,
        improvement_attempts: improved.attempts,
        measured_improvement_attempts: improved.measured,
        unmeasured_improvement_attempts: improved.open,
        validated_improvement_attempts: improved.validated,
        unvalidated_improvement_attempts: improved.unvalidated,
        non_regressed_improvement_attempts: improved.non_regressed,
        regressed_improvement_attempts: improved.regressed,
        eval_measurement_points: improved.points,
        measurement_regressions: improved.regressions,
        recovery_attempts: recovered.attempts,
        recovery_successes: recovered.successes,
        recovery_failures: recovered.failures,
        recovery_suppressed: counts.recovery_suppressed,
        recovery_loop_breaks: recovered.loop_breaks,
        recovery_regressions: recovered.failures,
        recovery_measurement_points: recovered.attempts,
    }
}

/// No signal but the count of events and the contiguity comes from an empty
/// window.
pub proof fn law_empty_window_shows_nothing(s: TlogDeltaSignals)
    requires
        s.of(Seq::<TlogRecord>::empty()),
    ensures
        s.contiguous_seq,
        s.event_count == 0,
        s.lag_gap_count == 0,
        s.improvement_attempts == 0,
        s.recovery_attempts == 0,
        s.missing_action_results == 0,
        s.unapplied_artifact_writes == 0,
        s.dominant_payload_kind@.len() == 0,
{
    let none = Seq::<TlogRecord>::empty();
    let empty = Set::<Seq<char>>::empty();
    assert(collected(none, |e: Event| action_output_id(e)).to_set() =~= empty);
    assert(collected(none, |e: Event| write_request_signature(e)).to_set() =~= empty);
    assert(empty.difference(collected(none, |e: Event| action_result_id(e)).to_set()) =~= empty);
    assert(empty.difference(collected(none, |e: Event| write_applied_signature(e)).to_set())
        =~= empty);
}

} // verus!
