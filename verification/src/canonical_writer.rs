//! The single gate through which every change of the system state passes.
//!
//! A control event is logged and then advances the state; what is refused or
//! cannot be logged changes nothing. Effect events are logged and never change
//! the state, so replaying the logged control events gives the state back.

use crate::events::{ControlEvent, EffectEvent, Event};
use crate::evolution::EvolutionAdvance;
use crate::text::copy_optional;
use vstd::prelude::*;
use vstd::string::*;

verus! {

/// The one way to a state of type `S`.
///
/// The transition policy, the state's own checks and the log file stand outside:
/// each method takes what they answered.
pub struct CanonicalWriter<S> {
    state: S,
    tlog_seq: u64,
    evolution: u64,
    workspace: String,
    /// The events logged through this gate since it was made or last restored.
    log: Ghost<Seq<Event>>,
}

/// The state that the control events of a log lead to.
pub open spec fn replayed<S>(
    initial: S,
    log: Seq<Event>,
    step: spec_fn(S, ControlEvent) -> S,
) -> S
    decreases log.len(),
{
    if log.len() == 0 {
        initial
    } else {
        let before = replayed(initial, log.drop_last(), step);
        match log.last() {
            Event::Control { event } => step(before, event),
            Event::Effect { .. } => before,
        }
    }
}

/// The text of a refusal.
pub open spec fn refusal(what: Seq<char>, reason: Seq<char>) -> Seq<char> {
    "[canonical_writer] "@ + what + ": "@ + reason
}

fn refuse(what: &str, reason: &str) -> (r: String)
    ensures
        r@ == refusal(what@, reason@),
{
    let mut message = "[canonical_writer] ".to_owned();
    message.append(what);
    message.append(": ");
    message.append(reason);
    message
}

/// What the checks before an append answer: the first refusal counts.
pub open spec fn check_refusal(
    legal: Result<(), String>,
    valid: Result<(), String>,
) -> Option<Seq<char>> {
    match (legal, valid) {
        (Err(reason), _) => Some(refusal("illegal control transition"@, reason@)),
        (Ok(_), Err(reason)) => Some(refusal("invalid control transition"@, reason@)),
        (Ok(_), Ok(_)) => None,
    }
}

/// Why a control event is not applied, `appended` being what the log answered where it
/// was asked.
pub open spec fn apply_refusal(
    legal: Result<(), String>,
    valid: Result<(), String>,
    appended: Option<Result<u64, String>>,
) -> Option<Seq<char>> {
    match (check_refusal(legal, valid), appended) {
        (Some(refused), _) => Some(refused),
        (None, None) => Some(
            refusal("tlog append failed during apply"@, "the log was not asked"@),
        ),
        (None, Some(Err(reason))) => Some(
            refusal("tlog append failed during apply"@, reason@),
        ),
        (None, Some(Ok(_))) => None,
    }
}

/// The text of an error.
pub open spec fn error_text(r: Result<(), String>) -> Option<Seq<char>> {
    match r {
        Ok(_) => None,
        Err(e) => Some(e@),
    }
}

/// A control event may be appended: the transition is legal and the state that
/// it leads to is valid.
pub fn check_transition(legal: &Result<(), String>, valid: &Result<(), String>) -> (r: Result<
    (),
    String,
>)
    ensures
        error_text(r) == check_refusal(*legal, *valid),
{
    match legal {
        Err(reason) => Err(refuse("illegal control transition", reason.as_str())),
        Ok(_) => match valid {
            Err(reason) => Err(refuse("invalid control transition", reason.as_str())),
            Ok(_) => Ok(()),
        },
    }
}

/// The effect event that records a violation of an invariant.
pub open spec fn records_violation(e: Event, role: Seq<char>, reason: Seq<char>) -> bool {
    match e {
        Event::Effect { event: EffectEvent::InvariantViolation { proposed_role, reason: why } } => {
            &&& proposed_role@ == role
            &&& why@ == reason
        },
        _ => false,
    }
}

/// The effect event that records a violation of an invariant.
pub fn violation_event(proposed_role: &str, reason: &str) -> (r: Event)
    ensures
        records_violation(r, proposed_role@, reason@),
{
    Event::Effect {
        event: EffectEvent::InvariantViolation {
            proposed_role: proposed_role.to_owned(),
            reason: reason.to_owned(),
        },
    }
}

/// The violation that stands for a failed operation of the writer.
pub fn failure_event(operation: &str, error: &str) -> (r: Event)
    ensures
        records_violation(r, "canonical_writer"@, operation@ + " failed: "@ + error@),
{
    let mut reason = operation.to_owned();
    reason.append(" failed: ");
    reason.append(error);
    violation_event("canonical_writer", reason.as_str())
}

/// The effect event that records an advance.
pub open spec fn records_advance(e: Event, advance: EvolutionAdvance) -> bool {
    match e {
        Event::Effect {
            event: EffectEvent::BuildEvolutionAdvanced {
                evolution,
                command,
                git_commit,
                git_commit_count,
            },
        } => {
            &&& evolution == advance.evolution
            &&& command@ == advance.command@
            &&& crate::text::optional(git_commit) == crate::text::optional(advance.git_commit)
            &&& git_commit_count == advance.git_commit_count
        },
        _ => false,
    }
}

/// The effect event that records an advance.
pub fn advance_event(advance: &EvolutionAdvance) -> (r: Event)
    ensures
        records_advance(r, *advance),
{
    Event::Effect {
        event: EffectEvent::BuildEvolutionAdvanced {
            evolution: advance.evolution,
            command: advance.command.clone(),
            git_commit: copy_optional(&advance.git_commit),
            git_commit_count: advance.git_commit_count,
        },
    }
}

impl<S> CanonicalWriter<S> {
    /// The current state.
    pub closed spec fn current(&self) -> S {
        self.state
    }

    /// The sequence number that the log gave last.
    pub closed spec fn seq(&self) -> u64 {
        self.tlog_seq
    }

    /// The evolution that the log stamps on records.
    pub closed spec fn stamp(&self) -> u64 {
        self.evolution
    }

    /// The directory of the workspace.
    pub closed spec fn place(&self) -> Seq<char> {
        self.workspace@
    }

    /// The events logged through this gate since it was made or last restored from a
    /// checkpoint.
    pub closed spec fn logged(&self) -> Seq<Event> {
        self.log@
    }

    /// Replaying the log from `initial` by `step` gives the current state.
    pub open spec fn replays(&self, initial: S, step: spec_fn(S, ControlEvent) -> S) -> bool {
        self.current() == replayed(initial, self.logged(), step)
    }

    /// The current state passes a check.
    pub open spec fn holds(&self, check: spec_fn(S) -> bool) -> bool {
        check(self.current())
    }

    /// `self` differs from `before` only in what one logged event changes: the
    /// log and its sequence number.
    pub open spec fn only_logged(&self, before: &Self, event: Event, seq: u64) -> bool {
        &&& self.current() == before.current()
        &&& self.seq() == seq
        &&& self.stamp() == before.stamp()
        &&& self.place() == before.place()
        &&& self.logged() == before.logged().push(event)
    }

    /// A gate to a valid initial state; an invalid one is refused.
    pub fn try_new(
        state: S,
        valid: Result<(), String>,
        tlog_seq: u64,
        evolution: u64,
        workspace: String,
    ) -> (r: Result<Self, String>)
        ensures
            match (valid, r) {
                (Ok(_), Ok(w)) => {
                    &&& w.current() == state
                    &&& w.seq() == tlog_seq
                    &&& w.stamp() == evolution
                    &&& w.place() == workspace@
                    &&& w.logged() == Seq::<Event>::empty()
                    &&& forall|check: spec_fn(S) -> bool| check(state) ==> #[trigger] w.holds(check)
                },
                (Err(reason), Err(e)) => e@ == refusal("invalid initial state"@, reason@),
                _ => false,
            },
    {
        match valid {
            Ok(_) => Ok(Self::new(state, Ok(()), tlog_seq, evolution, workspace)),
            Err(reason) => Err(refuse("invalid initial state", reason.as_str())),
        }
    }

    /// A gate to a state that the state's own check, which answered `valid`, has let
    /// pass.
    pub fn new(
        state: S,
        valid: Result<(), String>,
        tlog_seq: u64,
        evolution: u64,
        workspace: String,
    ) -> (r: Self)
        requires
            valid is Ok,
        ensures
            r.current() == state,
            r.seq() == tlog_seq,
            r.stamp() == evolution,
            r.place() == workspace@,
            r.logged() == Seq::<Event>::empty(),
            forall|check: spec_fn(S) -> bool| check(state) ==> #[trigger] r.holds(check),
    {
        CanonicalWriter { state, tlog_seq, evolution, workspace, log: Ghost(Seq::empty()) }
    }

    /// Applies a control event.
    ///
    /// `legal` and `valid` are what the transition policy says of the event and
    /// the state's own check of `next`, the state that the event leads to;
    /// `appended` is what the log answered. It may be asked only where both passed:
    /// what is refused is refused before any durable write. The state advances where
    /// all three passed, and nothing changes otherwise.
    pub fn try_apply(
        &mut self,
        event: ControlEvent,
        legal: Result<(), String>,
        next: S,
        valid: Result<(), String>,
        appended: Option<Result<u64, String>>,
    ) -> (r: Result<(), String>)
        requires
            check_refusal(legal, valid) is Some ==> appended is None,
        ensures
            match apply_refusal(legal, valid, appended) {
                Some(refused) => {
                    &&& error_text(r) == Some(refused)
                    &&& *final(self) == *old(self)
                },
                None => {
                    let seq = appended->Some_0->Ok_0;
                    &&& r is Ok
                    &&& final(self).current() == next
                    &&& final(self).seq() == seq
                    &&& final(self).stamp() == old(self).stamp()
                    &&& final(self).place() == old(self).place()
                    &&& final(self).logged() == old(self).logged().push(Event::Control { event })
                },
            },
            forall|initial: S, step: spec_fn(S, ControlEvent) -> S|
                old(self).replays(initial, step) && next == step(old(self).current(), event)
                    ==> #[trigger] final(self).replays(initial, step),
            forall|check: spec_fn(S) -> bool|
                old(self).holds(check) && (valid is Ok ==> check(next)) ==>
                    #[trigger] final(self).holds(check),
    {
        match check_transition(&legal, &valid) {
            Err(e) => {
                return Err(e);
            },
            Ok(_) => {},
        }
        match appended {
            None => Err(refuse("tlog append failed during apply", "the log was not asked")),
            Some(Err(reason)) => Err(refuse("tlog append failed during apply", reason.as_str())),
            Some(Ok(seq)) => {
                let ghost before = self.log@;
                self.state = next;
                self.tlog_seq = seq;
                self.log = Ghost(before.push(Event::Control { event }));
                assert(self.log@.drop_last() =~= before);
                Ok(())
            },
        }
    }

    /// Records an effect event. The state stays as it is, whatever comes back.
    pub fn try_record_effect(&mut self, effect: EffectEvent, appended: Result<u64, String>) -> (r:
        Result<(), String>)
        ensures
            match appended {
                Ok(seq) => {
                    &&& r is Ok
                    &&& final(self).only_logged(old(self), Event::Effect { event: effect }, seq)
                },
                Err(reason) => {
                    &&& error_text(r) == Some(refusal("tlog effect append failed"@, reason@))
                    &&& *final(self) == *old(self)
                },
            },
            forall|initial: S, step: spec_fn(S, ControlEvent) -> S|
                old(self).replays(initial, step) ==> #[trigger] final(self).replays(initial, step),
            forall|check: spec_fn(S) -> bool|
                old(self).holds(check) ==> #[trigger] final(self).holds(check),
    {
        match appended {
            Err(reason) => Err(refuse("tlog effect append failed", reason.as_str())),
            Ok(seq) => {
                let ghost before = self.log@;
                self.tlog_seq = seq;
                self.log = Ghost(before.push(Event::Effect { event: effect }));
                assert(self.log@.drop_last() =~= before);
                Ok(())
            },
        }
    }

    /// Records the violation of an invariant without changing the state.
    pub fn try_record_violation(
        &mut self,
        proposed_role: &str,
        reason: &str,
        appended: Result<u64, String>,
    ) -> (r: Result<(), String>)
        ensures
            match appended {
                Ok(seq) => {
                    &&& r is Ok
                    &&& final(self).logged().len() == old(self).logged().len() + 1
                    &&& records_violation(final(self).logged().last(), proposed_role@, reason@)
                    &&& final(self).only_logged(old(self), final(self).logged().last(), seq)
                },
                Err(why) => {
                    &&& error_text(r) == Some(refusal("tlog violation append failed"@, why@))
                    &&& *final(self) == *old(self)
                },
            },
            forall|initial: S, step: spec_fn(S, ControlEvent) -> S|
                old(self).replays(initial, step) ==> #[trigger] final(self).replays(initial, step),
            forall|check: spec_fn(S) -> bool|
                old(self).holds(check) ==> #[trigger] final(self).holds(check),
    {
        match appended {
            Err(why) => Err(refuse("tlog violation append failed", why.as_str())),
            Ok(seq) => {
                let ghost before = self.log@;
                let event = violation_event(proposed_role, reason);
                self.tlog_seq = seq;
                self.log = Ghost(before.push(event));
                assert(self.log@.drop_last() =~= before);
                Ok(())
            },
        }
    }

    /// Stamps the evolution of an advance on the log and records the advance. The
    /// stamp stays where recording fails.
    pub fn try_record_evolution_advance(
        &mut self,
        advance: &EvolutionAdvance,
        appended: Result<u64, String>,
    ) -> (r: Result<(), String>)
        ensures
            final(self).stamp() == advance.evolution,
            final(self).current() == old(self).current(),
            final(self).place() == old(self).place(),
            match appended {
                Ok(seq) => {
                    &&& r is Ok
                    &&& final(self).seq() == seq
                    &&& final(self).logged().len() == old(self).logged().len() + 1
                    &&& records_advance(final(self).logged().last(), *advance)
                    &&& final(self).logged().drop_last() == old(self).logged()
                },
                Err(reason) => {
                    &&& error_text(r) == Some(refusal("tlog effect append failed"@, reason@))
                    &&& final(self).seq() == old(self).seq()
                    &&& final(self).logged() == old(self).logged()
                },
            },
            forall|initial: S, step: spec_fn(S, ControlEvent) -> S|
                old(self).replays(initial, step) ==> #[trigger] final(self).replays(initial, step),
            forall|check: spec_fn(S) -> bool|
                old(self).holds(check) ==> #[trigger] final(self).holds(check),
    {
        self.evolution = advance.evolution;
        match appended {
            Err(reason) => Err(refuse("tlog effect append failed", reason.as_str())),
            Ok(seq) => {
                let ghost before = self.log@;
                let event = advance_event(advance);
                self.tlog_seq = seq;
                self.log = Ghost(before.push(event));
                assert(self.log@.drop_last() =~= before);
                Ok(())
            },
        }
    }

    /// `after` differs from `before` only in the violation that stands for a failed
    /// operation, where the log took it.
    pub open spec fn failure_noted(
        before: &Self,
        after: &Self,
        operation: Seq<char>,
        error: Seq<char>,
        noted: Result<u64, String>,
    ) -> bool {
        match noted {
            Ok(seq) => {
                &&& after.logged().len() == before.logged().len() + 1
                &&& records_violation(
                    after.logged().last(),
                    "canonical_writer"@,
                    operation + " failed: "@ + error,
                )
                &&& after.only_logged(before, after.logged().last(), seq)
            },
            Err(_) => *after == *before,
        }
    }

    fn note_failure(&mut self, operation: &str, error: &str, noted: Result<u64, String>)
        ensures
            Self::failure_noted(old(self), final(self), operation@, error@, noted),
            forall|initial: S, step: spec_fn(S, ControlEvent) -> S|
                old(self).replays(initial, step) ==> #[trigger] final(self).replays(initial, step),
            forall|check: spec_fn(S) -> bool|
                old(self).holds(check) ==> #[trigger] final(self).holds(check),
    {
        let mut reason = operation.to_owned();
        reason.append(" failed: ");
        reason.append(error);
        let _ = self.try_record_violation("canonical_writer", reason.as_str(), noted);
    }

    /// Applies a control event; a failure is recorded as a violation, to which the
    /// log answers `noted`. Gives what is to be reported.
    pub fn apply(
        &mut self,
        event: ControlEvent,
        legal: Result<(), String>,
        next: S,
        valid: Result<(), String>,
        appended: Option<Result<u64, String>>,
        noted: Result<u64, String>,
    ) -> (r: Option<String>)
        requires
            check_refusal(legal, valid) is Some ==> appended is None,
        ensures
            match apply_refusal(legal, valid, appended) {
                None => {
                    let seq = appended->Some_0->Ok_0;
                    &&& r is None
                    &&& final(self).current() == next
                    &&& final(self).seq() == seq
                    &&& final(self).stamp() == old(self).stamp()
                    &&& final(self).place() == old(self).place()
                    &&& final(self).logged() == old(self).logged().push(Event::Control { event })
                },
                Some(refused) => {
                    &&& crate::text::optional(r) == Some(refused)
                    &&& Self::failure_noted(old(self), final(self), "apply"@, refused, noted)
                },
            },
            forall|initial: S, step: spec_fn(S, ControlEvent) -> S|
                old(self).replays(initial, step) && next == step(old(self).current(), event)
                    ==> #[trigger] final(self).replays(initial, step),
            forall|check: spec_fn(S) -> bool|
                old(self).holds(check) && (valid is Ok ==> check(next)) ==>
                    #[trigger] final(self).holds(check),
    {
        match self.try_apply(event, legal, next, valid, appended) {
            Ok(_) => None,
            Err(e) => {
                self.note_failure("apply", e.as_str(), noted);
                Some(e)
            },
        }
    }

    /// Records the violation of an invariant. Gives what is to be reported.
    pub fn record_violation(
        &mut self,
        proposed_role: &str,
        reason: &str,
        appended: Result<u64, String>,
    ) -> (r: Option<String>)
        ensures
            match appended {
                Ok(seq) => {
                    &&& r is None
                    &&& final(self).logged().len() == old(self).logged().len() + 1
                    &&& records_violation(final(self).logged().last(), proposed_role@, reason@)
                    &&& final(self).only_logged(old(self), final(self).logged().last(), seq)
                },
                Err(why) => {
                    &&& crate::text::optional(r) == Some(
                        refusal("tlog violation append failed"@, why@),
                    )
                    &&& *final(self) == *old(self)
                },
            },
            forall|initial: S, step: spec_fn(S, ControlEvent) -> S|
                old(self).replays(initial, step) ==> #[trigger] final(self).replays(initial, step),
            forall|check: spec_fn(S) -> bool|
                old(self).holds(check) ==> #[trigger] final(self).holds(check),
    {
        match self.try_record_violation(proposed_role, reason, appended) {
            Ok(_) => None,
            Err(e) => Some(e),
        }
    }

    /// Records an effect event; a failure is recorded as a violation, to which the log
    /// answers `noted`. Gives what is to be reported.
    pub fn record_effect(
        &mut self,
        effect: EffectEvent,
        appended: Result<u64, String>,
        noted: Result<u64, String>,
    ) -> (r: Option<String>)
        ensures
            match appended {
                Ok(seq) => {
                    &&& r is None
                    &&& final(self).only_logged(old(self), Event::Effect { event: effect }, seq)
                },
                Err(reason) => {
                    let error = refusal("tlog effect append failed"@, reason@);
                    &&& crate::text::optional(r) == Some(error)
                    &&& Self::failure_noted(old(self), final(self), "record_effect"@, error, noted)
                },
            },
            forall|initial: S, step: spec_fn(S, ControlEvent) -> S|
                old(self).replays(initial, step) ==> #[trigger] final(self).replays(initial, step),
            forall|check: spec_fn(S) -> bool|
                old(self).holds(check) ==> #[trigger] final(self).holds(check),
    {
        match self.try_record_effect(effect, appended) {
            Ok(_) => None,
            Err(e) => {
                self.note_failure("record_effect", e.as_str(), noted);
                Some(e)
            },
        }
    }

    /// Records an advance; a failure is recorded as a violation, to which the log
    /// answers `noted`. Gives what is to be reported.
    pub fn record_evolution_advance(
        &mut self,
        advance: &EvolutionAdvance,
        appended: Result<u64, String>,
        noted: Result<u64, String>,
    ) -> (r: Option<String>)
        ensures
            final(self).stamp() == advance.evolution,
            final(self).current() == old(self).current(),
            final(self).place() == old(self).place(),
            match appended {
                Ok(seq) => {
                    &&& r is None
                    &&& final(self).seq() == seq
                    &&& final(self).logged().len() == old(self).logged().len() + 1
                    &&& records_advance(final(self).logged().last(), *advance)
                    &&& final(self).logged().drop_last() == old(self).logged()
                },
                Err(reason) => {
                    let error = refusal("tlog effect append failed"@, reason@);
                    &&& crate::text::optional(r) == Some(error)
                    &&& match noted {
                        Ok(seq) => {
                            &&& final(self).seq() == seq
                            &&& final(self).logged().len() == old(self).logged().len() + 1
                            &&& records_violation(
                                final(self).logged().last(),
                                "canonical_writer"@,
                                "record_evolution_advance"@ + " failed: "@ + error,
                            )
                            &&& final(self).logged().drop_last() == old(self).logged()
                        },
                        Err(_) => {
                            &&& final(self).seq() == old(self).seq()
                            &&& final(self).logged() == old(self).logged()
                        },
                    }
                },
            },
            forall|initial: S, step: spec_fn(S, ControlEvent) -> S|
                old(self).replays(initial, step) ==> #[trigger] final(self).replays(initial, step),
            forall|check: spec_fn(S) -> bool|
                old(self).holds(check) ==> #[trigger] final(self).holds(check),
    {
        match self.try_record_evolution_advance(advance, appended) {
            Ok(_) => None,
            Err(e) => {
                let ghost before = self.logged();
                self.note_failure("record_evolution_advance", e.as_str(), noted);
                assert(noted is Ok ==> self.logged().drop_last() =~= before);
                Some(e)
            },
        }
    }

    /// Replaces the state by one from a checkpoint; a failure is recorded as a
    /// violation, to which the log answers `noted`. Gives what is to be reported.
    pub fn restore_from_checkpoint(
        &mut self,
        restored: S,
        valid: Result<(), String>,
        noted: Result<u64, String>,
    ) -> (r: Option<String>)
        ensures
            match valid {
                Ok(_) => {
                    &&& r is None
                    &&& final(self).current() == restored
                    &&& final(self).seq() == old(self).seq()
                    &&& final(self).stamp() == old(self).stamp()
                    &&& final(self).place() == old(self).place()
                    &&& final(self).logged() == Seq::<Event>::empty()
                },
                Err(reason) => {
                    let error = refusal("invalid checkpoint restore state"@, reason@);
                    &&& crate::text::optional(r) == Some(error)
                    &&& Self::failure_noted(
                        old(self),
                        final(self),
                        "restore_from_checkpoint"@,
                        error,
                        noted,
                    )
                },
            },
            valid is Ok ==> forall|step: spec_fn(S, ControlEvent) -> S| #[trigger]
                final(self).replays(restored, step),
            forall|check: spec_fn(S) -> bool|
                old(self).holds(check) && (valid is Ok ==> check(restored)) ==>
                    #[trigger] final(self).holds(check),
    {
        match self.try_restore_from_checkpoint(restored, valid) {
            Ok(_) => None,
            Err(e) => {
                self.note_failure("restore_from_checkpoint", e.as_str(), noted);
                Some(e)
            },
        }
    }

    /// The current state.
    pub fn state(&self) -> (r: &S)
        ensures
            *r == self.current(),
    {
        &self.state
    }

    /// Replaces the state by one from a checkpoint, where that is valid. The log
    /// then starts from the restored state.
    pub fn try_restore_from_checkpoint(&mut self, restored: S, valid: Result<(), String>) -> (r:
        Result<(), String>)
        ensures
            match valid {
                Ok(_) => {
                    &&& r is Ok
                    &&& final(self).current() == restored
                    &&& final(self).seq() == old(self).seq()
                    &&& final(self).stamp() == old(self).stamp()
                    &&& final(self).place() == old(self).place()
                    &&& final(self).logged() == Seq::<Event>::empty()
                },
                Err(reason) => {
                    &&& error_text(r) == Some(
                        refusal("invalid checkpoint restore state"@, reason@),
                    )
                    &&& *final(self) == *old(self)
                },
            },
            valid is Ok ==> forall|step: spec_fn(S, ControlEvent) -> S| #[trigger]
                final(self).replays(restored, step),
            forall|check: spec_fn(S) -> bool|
                old(self).holds(check) && (valid is Ok ==> check(restored)) ==>
                    #[trigger] final(self).holds(check),
    {
        match valid {
            Err(reason) => Err(refuse("invalid checkpoint restore state", reason.as_str())),
            Ok(_) => {
                self.state = restored;
                self.log = Ghost(Seq::empty());
                Ok(())
            },
        }
    }

    /// The directory of the workspace.
    pub fn workspace(&self) -> (r: &str)
        ensures
            r@ == self.place(),
    {
        self.workspace.as_str()
    }

    /// The sequence number that the log gave last.
    pub fn tlog_seq(&self) -> (r: u64)
        ensures
            r == self.seq(),
    {
        self.tlog_seq
    }

    /// The evolution that the log stamps on records.
    pub fn evolution(&self) -> (r: u64)
        ensures
            r == self.stamp(),
    {
        self.evolution
    }
}

/// An effect event between control events changes nothing of what a replay gives.
pub proof fn law_replay_ignores_effects<S>(
    initial: S,
    before: Seq<Event>,
    effect: EffectEvent,
    after: Seq<Event>,
    step: spec_fn(S, ControlEvent) -> S,
)
    ensures
        replayed(initial, before.push(Event::Effect { event: effect }) + after, step) == replayed(
            initial,
            before + after,
            step,
        ),
    decreases after.len(),
{
    let with = before.push(Event::Effect { event: effect }) + after;
    let without = before + after;
    if after.len() == 0 {
        assert(with =~= before.push(Event::Effect { event: effect }));
        assert(without =~= before);
        assert(with.drop_last() =~= before);
    } else {
        law_replay_ignores_effects(initial, before, effect, after.drop_last(), step);
        assert(with.drop_last() =~= before.push(Event::Effect { event: effect })
            + after.drop_last());
        assert(without.drop_last() =~= before + after.drop_last());
    }
}

/// A replay can stop at any point of the log and go on from the state it reached.
pub proof fn law_replay_resumes<S>(
    initial: S,
    first: Seq<Event>,
    rest: Seq<Event>,
    step: spec_fn(S, ControlEvent) -> S,
)
    ensures
        replayed(initial, first + rest, step) == replayed(
            replayed(initial, first, step),
            rest,
            step,
        ),
    decreases rest.len(),
{
    if rest.len() == 0 {
        assert(first + rest =~= first);
    } else {
        law_replay_resumes(initial, first, rest.drop_last(), step);
        assert((first + rest).drop_last() =~= first + rest.drop_last());
    }
}

} // verus!
