//! What the training rows promise of the log that they were taken from.

use crate::events::{EffectEvent, Event, TlogRecord};
use crate::grpo;
use crate::grpo::{DriftCounts, OutcomeView, RowView, TrainingRow, TurnView};
use crate::groups;
use crate::json;
use crate::json::JsonView;
use crate::keyed;
use crate::order::Ranked;
use crate::text;
use vstd::prelude::*;

verus! {

// ---------------------------------------------------------------------------
// Outcomes
// ---------------------------------------------------------------------------

/// The record says that an action for the task failed.
pub open spec fn failed_for(r: TlogRecord, task: Seq<char>) -> bool {
    r.event matches Event::Effect {
        event: EffectEvent::ActionResultRecorded { task_id: Some(t), ok: false, .. },
    } && t@ == task
}

/// The record carries a message with a value about the task.
pub open spec fn message_value(r: TlogRecord) -> Option<JsonView> {
    match r.event {
        Event::Effect { event: EffectEvent::InboundMessageRecorded { message, .. } } => {
            grpo::payload(message@)
        },
        _ => None,
    }
}

/// The record is a message that names the task, itself or in its payload.
pub open spec fn message_about(r: TlogRecord, task: Seq<char>) -> bool {
    match message_value(r) {
        Some(v) => json::text_field(v, "task_id"@) == Some(task) || (json::text_field(
            v,
            "task_id"@,
        ) is None && match json::field(v, "payload"@) {
            Some(p) => json::text_field(p, "task_id"@) == Some(task),
            None => false,
        }),
        None => false,
    }
}

/// What the message says of its task, in small letters: its status, else its type.
pub open spec fn said_status(r: TlogRecord) -> Option<Seq<char>> {
    match message_value(r) {
        Some(v) => match json::text_field(v, "status"@) {
            Some(s) => Some(text::lower_ascii(s)),
            None => match json::text_field(v, "type"@) {
                Some(s) => Some(text::lower_ascii(s)),
                None => None,
            },
        },
        None => None,
    }
}

/// The record is a message that reports the task in that state.
pub open spec fn reports(r: TlogRecord, task: Seq<char>, status: Seq<char>) -> bool {
    message_about(r, task) && said_status(r) == Some(status)
}

/// How a task ended by a log.
pub open spec fn ending(rs: Seq<TlogRecord>, task: Seq<char>) -> Seq<char> {
    grpo::outcome_of(grpo::final_outcomes(grpo::read_log(rs)), task).status
}

/// The outcomes before the blockers are counted in.
proof fn lemma_blockers_keep_the_status(
    outcomes: Seq<(Seq<char>, OutcomeView)>,
    blockers: Seq<(Seq<char>, usize)>,
    task: Seq<char>,
)
    ensures
        grpo::outcome_of(grpo::with_blockers(outcomes, blockers), task).status == grpo::outcome_of(
            outcomes,
            task,
        ).status,
    decreases blockers.len(),
{
    if blockers.len() > 0 {
        lemma_blockers_keep_the_status(outcomes, blockers.drop_last(), task);
        lemma_blockers_keep_the_status(outcomes, blockers.drop_last(), blockers.last().0);
        let before = grpo::with_blockers(outcomes, blockers.drop_last());
        let (id, count) = blockers.last();
        keyed::law_entry_reads_what_was_put(
            before,
            id,
            OutcomeView { blocker_count: count, ..grpo::outcome_of(before, id) },
            task,
        );
    }
}

proof fn lemma_status_words()
    ensures
        "blocked"@ != "in_progress"@,
        "blocked"@ != "complete"@,
        "complete"@ != "in_progress"@,
{
    reveal_strlit("blocked");
    reveal_strlit("in_progress");
    reveal_strlit("complete");
    assert("blocked"@.len() == 7);
    assert("in_progress"@.len() == 11);
    assert("complete"@.len() == 8);
}

/// How one more record changes how a task ended.
proof fn lemma_ending_step(rs: Seq<TlogRecord>, r: TlogRecord, task: Seq<char>)
    ensures
        failed_for(r, task) && ending(rs, task) != "complete"@ ==> ending(rs.push(r), task)
            == "blocked"@,
        failed_for(r, task) && ending(rs, task) == "complete"@ ==> ending(rs.push(r), task)
            == "complete"@,
        reports(r, task, "complete"@) ==> ending(rs.push(r), task) == "complete"@,
        reports(r, task, "blocked"@) ==> ending(rs.push(r), task) == "blocked"@,
        reports(r, task, "in_progress"@) ==> ending(rs.push(r), task) == "in_progress"@,
        !failed_for(r, task) && !reports(r, task, "complete"@) && !reports(r, task, "blocked"@)
            && !reports(r, task, "in_progress"@) ==> ending(rs.push(r), task) == ending(rs, task),
{
    let now = rs.push(r);
    assert(now.drop_last() =~= rs);
    let l = grpo::read_log(rs);
    let m = grpo::read_log(now);
    lemma_blockers_keep_the_status(l.outcomes, l.blockers, task);
    lemma_blockers_keep_the_status(m.outcomes, m.blockers, task);
    match r.event {
        Event::Effect {
            event: EffectEvent::ActionResultRecorded { task_id: Some(t), ok: false, .. },
        } => {
            let o = grpo::outcome_of(l.outcomes, t@);
            let value = if o.status == "complete"@ {
                o
            } else {
                OutcomeView { status: "blocked"@, ..o }
            };
            keyed::law_entry_reads_what_was_put(l.outcomes, t@, value, task);
        },
        Event::Effect { event: EffectEvent::InboundMessageRecorded { message, .. } } => {
            match grpo::payload(message@) {
                Some(v) => {
                    match (grpo::task_id_of(v), grpo::status_of(v)) {
                        (Some(id), Some(status)) => {
                            let n = grpo::blockers_in(v);
                            let value = OutcomeView {
                                status,
                                blocker_count: if n > 0 {
                                    n
                                } else {
                                    grpo::outcome_of(l.outcomes, id).blocker_count
                                },
                            };
                            keyed::law_entry_reads_what_was_put(l.outcomes, id, value, task);
                        },
                        _ => {},
                    }
                },
                None => {},
            }
        },
        _ => {},
    }
}

/// A result that succeeded changes how no task ended.
pub proof fn law_success_blocks_nothing(rs: Seq<TlogRecord>, r: TlogRecord, task: Seq<char>)
    requires
        r.event matches Event::Effect { event: EffectEvent::ActionResultRecorded { ok: true, .. } },
    ensures
        ending(rs.push(r), task) == ending(rs, task),
        grpo::read_log(rs.push(r)).outcomes == grpo::read_log(rs).outcomes,
{
    lemma_ending_step(rs, r, task);
    assert(rs.push(r).drop_last() =~= rs);
}

/// A failed result blocks its task, unless that was complete, and no other task.
pub proof fn law_failure_blocks_its_task(rs: Seq<TlogRecord>, r: TlogRecord, task: Seq<char>)
    requires
        r.event matches Event::Effect { event: EffectEvent::ActionResultRecorded { ok: false, .. } },
    ensures
        failed_for(r, task) && ending(rs, task) != "complete"@ ==> ending(rs.push(r), task)
            == "blocked"@,
        failed_for(r, task) && ending(rs, task) == "complete"@ ==> ending(rs.push(r), task)
            == "complete"@,
        !failed_for(r, task) ==> ending(rs.push(r), task) == ending(rs, task),
{
    lemma_ending_step(rs, r, task);
}

/// A message settles how its task stands, whatever was known before, and no other task.
pub proof fn law_a_message_settles_its_task(rs: Seq<TlogRecord>, r: TlogRecord, task: Seq<char>)
    requires
        r.event matches Event::Effect { event: EffectEvent::InboundMessageRecorded { .. } },
    ensures
        reports(r, task, "complete"@) ==> ending(rs.push(r), task) == "complete"@,
        reports(r, task, "blocked"@) ==> ending(rs.push(r), task) == "blocked"@,
        reports(r, task, "in_progress"@) ==> ending(rs.push(r), task) == "in_progress"@,
        !message_about(r, task) ==> ending(rs.push(r), task) == ending(rs, task),
{
    lemma_ending_step(rs, r, task);
}

/// A task is blocked only where one of its results failed or a message says so, and
/// complete only where a message says so. Of what nothing is said, it is in progress.
pub proof fn law_a_task_ends_as_the_log_says(rs: Seq<TlogRecord>, task: Seq<char>)
    ensures
        ending(rs, task) == "blocked"@ || ending(rs, task) == "complete"@ || ending(rs, task)
            == "in_progress"@,
        ending(rs, task) == "blocked"@ ==> exists|i: int|
            0 <= i < rs.len() && (failed_for(#[trigger] rs[i], task) || reports(
                rs[i],
                task,
                "blocked"@,
            )),
        ending(rs, task) == "complete"@ ==> exists|i: int|
            0 <= i < rs.len() && reports(#[trigger] rs[i], task, "complete"@),
    decreases rs.len(),
{
    lemma_status_words();
    if rs.len() == 0 {
        lemma_blockers_keep_the_status(Seq::empty(), Seq::empty(), task);
    } else {
        let before = rs.drop_last();
        let r = rs.last();
        law_a_task_ends_as_the_log_says(before, task);
        lemma_ending_step(before, r, task);
        assert(before.push(r) =~= rs);
        assert(rs[rs.len() - 1] == r);
        if ending(rs, task) == "blocked"@ && !failed_for(r, task) && !reports(
            r,
            task,
            "blocked"@,
        ) {
            let i = choose|i: int|
                0 <= i < before.len() && (failed_for(#[trigger] before[i], task) || reports(
                    before[i],
                    task,
                    "blocked"@,
                ));
            assert(rs[i] == before[i]);
        }
        if ending(rs, task) == "complete"@ && !reports(r, task, "complete"@) {
            let i = choose|i: int|
                0 <= i < before.len() && reports(#[trigger] before[i], task, "complete"@);
            assert(rs[i] == before[i]);
        }
    }
}

/// A task of which only failed results speak is blocked.
pub proof fn law_only_failures_block(rs: Seq<TlogRecord>, task: Seq<char>)
    requires
        exists|i: int| 0 <= i < rs.len() && failed_for(#[trigger] rs[i], task),
        forall|i: int| 0 <= i < rs.len() ==> !message_about(#[trigger] rs[i], task),
    ensures
        ending(rs, task) == "blocked"@,
    decreases rs.len(),
{
    lemma_status_words();
    let before = rs.drop_last();
    let r = rs.last();
    assert(before.push(r) =~= rs);
    assert(rs[rs.len() - 1] == r);
    lemma_ending_step(before, r, task);
    law_a_task_ends_as_the_log_says(before, task);
    assert forall|i: int| 0 <= i < before.len() implies !message_about(#[trigger] before[i], task) by {
        assert(rs[i] == before[i]);
    }
    if failed_for(r, task) {
        assert(ending(before, task) != "complete"@) by {
            if ending(before, task) == "complete"@ {
                let i = choose|i: int|
                    0 <= i < before.len() && reports(#[trigger] before[i], task, "complete"@);
                assert(message_about(before[i], task));
            }
        }
    } else {
        let i = choose|i: int| 0 <= i < rs.len() && failed_for(#[trigger] rs[i], task);
        assert(before[i] == rs[i]);
        law_only_failures_block(before, task);
    }
}

// ---------------------------------------------------------------------------
// Turns
// ---------------------------------------------------------------------------

/// What is known of a command by a log.
pub open spec fn turn(rs: Seq<TlogRecord>, command: Seq<char>) -> TurnView {
    grpo::turn_of(grpo::read_log(rs), command)
}

/// What a record puts under its command.
proof fn lemma_turn_step(rs: Seq<TlogRecord>, r: TlogRecord, command: Seq<char>)
    ensures
        r.event matches Event::Effect {
            event: EffectEvent::LlmTurnInput { command_id, prompt_hash, role, .. },
        } ==> {
            let t = turn(rs.push(r), command);
            if command_id@ == command {
                &&& t.state_seq == Some(r.seq)
                &&& t.prompt_hash == Some(prompt_hash@)
                &&& t.role == Some(role@)
                &&& t.completion == turn(rs, command).completion
                &&& t.result == turn(rs, command).result
                &&& t.result_task_id == turn(rs, command).result_task_id
                &&& t.result_action_kind == turn(rs, command).result_action_kind
            } else {
                t == turn(rs, command)
            }
        },
        r.event matches Event::Effect {
            event: EffectEvent::LlmTurnOutput { command_id, raw, action_kind, role, .. },
        } ==> {
            let t = turn(rs.push(r), command);
            if command_id@ == command {
                &&& t.completion == Some(raw@)
                &&& t.output_action_kind == text::optional(action_kind)
                &&& turn(rs, command).role is Some ==> t.role == turn(rs, command).role
                &&& turn(rs, command).role is None ==> t.role == Some(role@)
                &&& t.state_seq == turn(rs, command).state_seq
                &&& t.prompt_hash == turn(rs, command).prompt_hash
                &&& t.result == turn(rs, command).result
                &&& t.result_task_id == turn(rs, command).result_task_id
                &&& t.result_action_kind == turn(rs, command).result_action_kind
            } else {
                t == turn(rs, command)
            }
        },
        r.event matches Event::Effect {
            event: EffectEvent::ActionResultRecorded {
                command_id,
                action_kind,
                task_id,
                ok,
                result,
                ..
            },
        } ==> {
            let t = turn(rs.push(r), command);
            if command_id@ == command {
                &&& t.result == Some(result@)
                &&& t.result_action_kind == Some(action_kind@)
                &&& t.result_task_id == text::optional(task_id)
                &&& t.result_ok == Some(ok)
                &&& t.state_seq == turn(rs, command).state_seq
                &&& t.prompt_hash == turn(rs, command).prompt_hash
                &&& t.completion == turn(rs, command).completion
                &&& t.role == turn(rs, command).role
            } else {
                t == turn(rs, command)
            }
        },
        !(r.event matches Event::Effect { event: EffectEvent::LlmTurnInput { .. } }) && !(
        r.event matches Event::Effect { event: EffectEvent::LlmTurnOutput { .. } }) && !(
        r.event matches Event::Effect { event: EffectEvent::ActionResultRecorded { .. } })
            ==> turn(rs.push(r), command) == turn(rs, command),
{
    let now = rs.push(r);
    assert(now.drop_last() =~= rs);
    let l = grpo::read_log(rs);
    match r.event {
        Event::Effect { event: EffectEvent::LlmTurnInput { command_id, prompt_hash, role, .. } } => {
            let value = TurnView {
                state_seq: Some(r.seq),
                prompt_hash: Some(prompt_hash@),
                role: Some(role@),
                ..grpo::turn_of(l, command_id@)
            };
            keyed::law_entry_reads_what_was_put(l.turns, command_id@, value, command);
        },
        Event::Effect {
            event: EffectEvent::LlmTurnOutput { command_id, raw, action_kind, role, .. },
        } => {
            let t = grpo::turn_of(l, command_id@);
            let value = TurnView {
                completion: Some(raw@),
                output_action_kind: text::optional(action_kind),
                role: if t.role is Some {
                    t.role
                } else {
                    Some(role@)
                },
                ..t
            };
            keyed::law_entry_reads_what_was_put(l.turns, command_id@, value, command);
        },
        Event::Effect {
            event: EffectEvent::ActionResultRecorded {
                command_id,
                action_kind,
                task_id,
                ok,
                result,
                ..
            },
        } => {
            let value = TurnView {
                result: Some(result@),
                result_action_kind: Some(action_kind@),
                result_task_id: text::optional(task_id),
                result_ok: Some(ok),
                ..grpo::turn_of(l, command_id@)
            };
            keyed::law_entry_reads_what_was_put(l.turns, command_id@, value, command);
        },
        _ => {},
    }
}

/// The prompt of a command is what its last turn input says, with its place in the log.
pub proof fn law_a_turn_input_tells_the_prompt(rs: Seq<TlogRecord>, r: TlogRecord, command: Seq<char>)
    ensures
        r.event matches Event::Effect {
            event: EffectEvent::LlmTurnInput { command_id, prompt_hash, role, .. },
        } ==> command_id@ == command ==> {
            let t = turn(rs.push(r), command);
            &&& t.state_seq == Some(r.seq)
            &&& t.prompt_hash == Some(prompt_hash@)
            &&& t.role == Some(role@)
            &&& t.completion == turn(rs, command).completion
            &&& t.result == turn(rs, command).result
        },
        !(r.event matches Event::Effect { event: EffectEvent::LlmTurnInput { command_id, .. } }
            && command_id@ == command) ==> {
            let t = turn(rs.push(r), command);
            &&& t.state_seq == turn(rs, command).state_seq
            &&& t.prompt_hash == turn(rs, command).prompt_hash
        },
{
    lemma_turn_step(rs, r, command);
}

/// The completion of a command is what its last turn output says; a role that is known is
/// kept.
pub proof fn law_a_turn_output_tells_the_completion(
    rs: Seq<TlogRecord>,
    r: TlogRecord,
    command: Seq<char>,
)
    ensures
        r.event matches Event::Effect {
            event: EffectEvent::LlmTurnOutput { command_id, raw, action_kind, role, .. },
        } ==> command_id@ == command ==> {
            let t = turn(rs.push(r), command);
            &&& t.completion == Some(raw@)
            &&& t.output_action_kind == text::optional(action_kind)
            &&& turn(rs, command).role is Some ==> t.role == turn(rs, command).role
            &&& turn(rs, command).role is None ==> t.role == Some(role@)
        },
        !(r.event matches Event::Effect { event: EffectEvent::LlmTurnOutput { command_id, .. } }
            && command_id@ == command) ==> turn(rs.push(r), command).completion == turn(
            rs,
            command,
        ).completion,
{
    lemma_turn_step(rs, r, command);
}

/// The result of a command is what its last action result says, with its task.
pub proof fn law_an_action_result_tells_the_result(
    rs: Seq<TlogRecord>,
    r: TlogRecord,
    command: Seq<char>,
)
    ensures
        r.event matches Event::Effect {
            event: EffectEvent::ActionResultRecorded {
                command_id,
                action_kind,
                task_id,
                ok,
                result,
                ..
            },
        } ==> command_id@ == command ==> {
            let t = turn(rs.push(r), command);
            &&& t.result == Some(result@)
            &&& t.result_action_kind == Some(action_kind@)
            &&& t.result_task_id == text::optional(task_id)
            &&& t.result_ok == Some(ok)
        },
        !(r.event matches Event::Effect {
            event: EffectEvent::ActionResultRecorded { command_id, .. },
        } && command_id@ == command) ==> {
            let t = turn(rs.push(r), command);
            &&& t.result == turn(rs, command).result
            &&& t.result_task_id == turn(rs, command).result_task_id
            &&& t.result_action_kind == turn(rs, command).result_action_kind
        },
{
    lemma_turn_step(rs, r, command);
}

// ---------------------------------------------------------------------------
// Rows
// ---------------------------------------------------------------------------

/// A turn gives a row exactly where its prompt, its completion and its result are known,
/// and the row tells them.
pub proof fn law_a_row_tells_its_turn(
    command: Seq<char>,
    t: TurnView,
    outcomes: Seq<(Seq<char>, OutcomeView)>,
)
    ensures
        grpo::row_of(command, t, outcomes) is Some <==> t.state_seq is Some && t.prompt_hash is Some
            && t.completion is Some && t.result is Some,
        grpo::row_of(command, t, outcomes) matches Some(row) ==> {
            &&& row.command_id == command
            &&& t.state_seq == Some(row.state_seq)
            &&& t.prompt_hash == Some(row.prompt_hash)
            &&& t.completion == Some(row.completion)
            &&& t.result == Some(row.result)
            &&& t.result_task_id is Some ==> Some(row.group_key) == t.result_task_id
            &&& t.result_task_id is None && grpo::task_id_in(row.completion) is Some ==> Some(
                row.group_key,
            ) == grpo::task_id_in(row.completion)
            &&& t.result_task_id is None && grpo::task_id_in(row.completion) is None
                ==> row.group_key == command
            &&& t.result_action_kind is Some ==> Some(row.action_kind) == t.result_action_kind
            &&& t.result_action_kind is None && t.output_action_kind is Some ==> Some(
                row.action_kind,
            ) == t.output_action_kind
            &&& t.result_action_kind is None && t.output_action_kind is None ==> row.action_kind
                == "unknown"@
            &&& t.role is Some ==> Some(row.role) == t.role
            &&& t.role is None ==> row.role == "unknown"@
        },
{
}

/// A row is worth one where its task is complete, nothing while it is in progress, and
/// minus one half and a twentieth for each blocker where it is blocked.
pub proof fn law_a_row_is_worth_how_its_task_ended(
    command: Seq<char>,
    t: TurnView,
    outcomes: Seq<(Seq<char>, OutcomeView)>,
)
    ensures
        grpo::row_of(command, t, outcomes) matches Some(row) ==> {
            let o = grpo::outcome_of(outcomes, row.group_key);
            &&& o.status == "complete"@ ==> row.reward_twentieths == 20
            &&& o.status == "in_progress"@ ==> row.reward_twentieths == 0
            &&& o.status == "blocked"@ ==> row.reward_twentieths == -10 - o.blocker_count
        },
{
    lemma_status_words();
}

/// A log says of a command what its rows say: a row of the data stands for a turn of the
/// log, and each turn with a prompt, a completion and a result has one.
pub proof fn law_rows_are_the_turns_of_the_log(rs: Seq<TlogRecord>, row: RowView)
    requires
        grpo::dataset_rows(grpo::read_log(rs)).contains(row),
    ensures
        exists|k: int|
            #![trigger grpo::read_log(rs).turns[k]]
            0 <= k < grpo::read_log(rs).turns.len() && grpo::row_of(
                grpo::read_log(rs).turns[k].0,
                grpo::read_log(rs).turns[k].1,
                grpo::final_outcomes(grpo::read_log(rs)),
            ) == Some(row),
{
    let l = grpo::read_log(rs);
    let outcomes = grpo::final_outcomes(l);
    let plain = grpo::rows_of(l.turns, outcomes);
    grpo::law_rows_are_ordered(l);
    let sorted = grpo::dataset_rows(l);
    broadcast use vstd::seq_lib::group_to_multiset_ensures;

    assert(sorted.to_multiset().count(row) > 0);
    assert(plain.contains(row));
    lemma_rows_come_from_turns(l.turns, outcomes, row);
}

proof fn lemma_rows_come_from_turns(
    turns: Seq<(Seq<char>, TurnView)>,
    outcomes: Seq<(Seq<char>, OutcomeView)>,
    row: RowView,
)
    requires
        grpo::rows_of(turns, outcomes).contains(row),
    ensures
        exists|k: int|
            #![trigger turns[k]]
            0 <= k < turns.len() && grpo::row_of(turns[k].0, turns[k].1, outcomes) == Some(row),
    decreases turns.len(),
{
    if turns.len() > 0 {
        let before = turns.drop_last();
        let rows = grpo::rows_of(turns, outcomes);
        let some = grpo::rows_of(before, outcomes);
        let i = choose|i: int| 0 <= i < rows.len() && rows[i] == row;
        if i < some.len() {
            assert(some[i] == row);
            lemma_rows_come_from_turns(before, outcomes, row);
            let k = choose|k: int|
                #![trigger before[k]]
                0 <= k < before.len() && grpo::row_of(before[k].0, before[k].1, outcomes) == Some(
                    row,
                );
            assert(turns[k] == before[k]);
        } else {
            assert(turns[turns.len() - 1] == turns.last());
        }
    }
}

/// Every turn that gives a row has it in the data.
pub proof fn law_no_turn_is_left_out(rs: Seq<TlogRecord>, k: int, row: RowView)
    requires
        0 <= k < grpo::read_log(rs).turns.len(),
        grpo::row_of(
            grpo::read_log(rs).turns[k].0,
            grpo::read_log(rs).turns[k].1,
            grpo::final_outcomes(grpo::read_log(rs)),
        ) == Some(row),
    ensures
        grpo::dataset_rows(grpo::read_log(rs)).contains(row),
{
    let l = grpo::read_log(rs);
    let outcomes = grpo::final_outcomes(l);
    let plain = grpo::rows_of(l.turns, outcomes);
    lemma_turns_give_rows(l.turns, outcomes, k, row);
    grpo::law_rows_are_ordered(l);
    broadcast use vstd::seq_lib::group_to_multiset_ensures;

    assert(plain.to_multiset().count(row) > 0);
    assert(grpo::dataset_rows(l).contains(row));
}

proof fn lemma_turns_give_rows(
    turns: Seq<(Seq<char>, TurnView)>,
    outcomes: Seq<(Seq<char>, OutcomeView)>,
    k: int,
    row: RowView,
)
    requires
        0 <= k < turns.len(),
        grpo::row_of(turns[k].0, turns[k].1, outcomes) == Some(row),
    ensures
        grpo::rows_of(turns, outcomes).contains(row),
    decreases turns.len(),
{
    let rows = grpo::rows_of(turns, outcomes);
    let some = grpo::rows_of(turns.drop_last(), outcomes);
    if k < turns.len() - 1 {
        lemma_turns_give_rows(turns.drop_last(), outcomes, k, row);
        let i = choose|i: int| 0 <= i < some.len() && some[i] == row;
        assert(rows[i] == row);
    } else {
        assert(rows[some.len() as int] == row);
    }
}

/// The rows stand by task in the order of texts, and within a task by their place in the
/// log.
pub proof fn law_rows_stand_by_task_and_place(rs: Seq<TlogRecord>, i: int, j: int)
    requires
        0 <= i < j < grpo::dataset_rows(grpo::read_log(rs)).len(),
    ensures
        ({
            let a = grpo::dataset_rows(grpo::read_log(rs))[i];
            let b = grpo::dataset_rows(grpo::read_log(rs))[j];
            &&& text::text_le(a.group_key, b.group_key)
            &&& a.group_key == b.group_key ==> a.state_seq <= b.state_seq
        }),
{
    let l = grpo::read_log(rs);
    grpo::law_rows_are_ordered(l);
    let le = |a: RowView, b: RowView| <TrainingRow as Ranked>::rank_le(a, b);
    let a = grpo::dataset_rows(l)[i];
    let b = grpo::dataset_rows(l)[j];
    assert(le(a, b));
    if a.group_key == b.group_key {
        text::lemma_text_le_total(a.group_key, b.group_key);
    }
}

/// Every task with a row has one group, which says how many rows it has and how it ended.
pub proof fn law_every_task_has_one_group(
    rows: Seq<RowView>,
    outcomes: Seq<(Seq<char>, OutcomeView)>,
    i: int,
)
    requires
        0 <= i < rows.len(),
    ensures
        exists|g: int|
            0 <= g < grpo::groups_for(rows, outcomes).len() && (#[trigger] grpo::groups_for(
                rows,
                outcomes,
            )[g]).group_key == rows[i].group_key && grpo::groups_for(rows, outcomes)[g].n > 0
                && grpo::groups_for(rows, outcomes)[g].outcome == grpo::outcome_of(
                outcomes,
                rows[i].group_key,
            ).status,
        forall|g: int, h: int|
            0 <= g < h < grpo::groups_for(rows, outcomes).len() ==> (#[trigger] grpo::groups_for(
                rows,
                outcomes,
            )[g]).group_key != (#[trigger] grpo::groups_for(rows, outcomes)[h]).group_key,
{
    let keys = grpo::keys_of(rows);
    let sorted = groups::sorted_set(keys);
    let gs = grpo::groups_for(rows, outcomes);
    groups::lemma_sorted_set(keys);
    assert(keys[i] == rows[i].group_key);
    assert(sorted.contains(rows[i].group_key));
    let g = choose|g: int| 0 <= g < sorted.len() && sorted[g] == rows[i].group_key;
    lemma_rows_in(keys, i);
    assert(gs[g].group_key == rows[i].group_key);
    assert forall|g: int, h: int| 0 <= g < h < gs.len() implies (#[trigger] gs[g]).group_key != (
    #[trigger] gs[h]).group_key by {
        assert(sorted[g] != sorted[h]);
    }
}

proof fn lemma_rows_in(keys: Seq<Seq<char>>, i: int)
    requires
        0 <= i < keys.len(),
    ensures
        grpo::rows_in(keys, keys[i]) > 0,
    decreases keys.len(),
{
    if i < keys.len() - 1 {
        lemma_rows_in(keys.drop_last(), i);
    }
}

/// One more row of a task raises the number of its rows by one, and that of no other.
pub proof fn law_a_row_counts_for_its_task(keys: Seq<Seq<char>>, key: Seq<char>, other: Seq<char>)
    ensures
        grpo::rows_in(keys.push(key), key) == grpo::rows_in(keys, key) + 1,
        other != key ==> grpo::rows_in(keys.push(key), other) == grpo::rows_in(keys, other),
        grpo::rows_in(Seq::empty(), key) == 0,
{
    assert(keys.push(key).drop_last() =~= keys);
}

// ---------------------------------------------------------------------------
// Blockers and drift
// ---------------------------------------------------------------------------

/// The blockers that a log counts for a task.
pub open spec fn counted(rs: Seq<TlogRecord>, task: Seq<char>) -> Option<usize> {
    keyed::entry(grpo::read_log(rs).blockers, task)
}

/// A blocker that is recorded counts for its task, and for no other.
pub proof fn law_a_blocker_counts_for_its_task(
    rs: Seq<TlogRecord>,
    r: TlogRecord,
    task: Seq<char>,
    other: Seq<char>,
)
    requires
        r.event matches Event::Effect { event: EffectEvent::BlockerRecorded { record } }
            && text::optional(record.task_id) == Some(task),
        other != task,
        counted(rs, task) is Some ==> counted(rs, task)->0 < usize::MAX,
    ensures
        counted(rs, task) is None ==> counted(rs.push(r), task) == Some(1usize),
        counted(rs, task) matches Some(n) ==> counted(rs.push(r), task) == Some((n + 1) as usize),
        counted(rs.push(r), other) == counted(rs, other),
        ending(rs.push(r), task) == ending(rs, task),
{
    let now = rs.push(r);
    assert(now.drop_last() =~= rs);
    let l = grpo::read_log(rs);
    let value = match keyed::entry(l.blockers, task) {
        Some(n) => grpo::one_more(n),
        None => 1,
    };
    keyed::law_entry_reads_what_was_put(l.blockers, task, value, other);
    lemma_ending_step(rs, r, task);
}

/// The last drift that a log records is the one that counts.
pub proof fn law_the_last_drift_counts(rs: Seq<TlogRecord>, r: TlogRecord)
    ensures
        r.event matches Event::Effect { event: EffectEvent::FingerprintDriftRecorded { drift } }
            ==> grpo::read_log(rs.push(r)).drift == Some(
            DriftCounts {
                improved: drift.improved@.len() as usize,
                regressed: drift.regressed@.len() as usize,
            },
        ),
        !(r.event matches Event::Effect { event: EffectEvent::FingerprintDriftRecorded { .. } })
            ==> grpo::read_log(rs.push(r)).drift == grpo::read_log(rs).drift,
{
    assert(rs.push(r).drop_last() =~= rs);
}

/// A drift in which only simpler symbols occur is worth one, and one in which only more
/// complex ones occur minus one and a half; without a drift it is worth nothing.
pub proof fn law_drift_is_worth_its_balance(d: DriftCounts)
    ensures
        d.improved > 0 && d.regressed == 0 ==> grpo::drift_fraction(Some(d)).0
            == grpo::drift_fraction(Some(d)).1,
        d.improved == 0 && d.regressed > 0 ==> 2 * grpo::drift_fraction(Some(d)).0 == -3
            * grpo::drift_fraction(Some(d)).1,
        d.improved + d.regressed > 0 ==> grpo::drift_fraction(Some(d)).1 == 2 * (d.improved
            + d.regressed) && grpo::drift_fraction(Some(d)).0 == 2 * d.improved - 3 * d.regressed,
        d.improved == 0 && d.regressed == 0 ==> grpo::drift_fraction(Some(d)).0 == 0,
        grpo::drift_fraction(None).0 == 0,
        grpo::drift_fraction(Some(d)).1 > 0,
{
}

} // verus!
