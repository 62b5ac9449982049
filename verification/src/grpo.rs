//! Training rows from the log: what was asked, what was answered, and how the task
//! ended.

use crate::canonical_writer;
use crate::canonical_writer::CanonicalWriter;
use crate::events::{EffectEvent, Event, TlogRecord};
use crate::groups;
use crate::groups::sorted_distinct;
use crate::json;
use crate::json::{get, get_text, Json, JsonView};
use crate::json_text;
use crate::json_text::parse_json;
use crate::keyed;
use crate::keyed::{find_entry, put_entry, Keyed};
use crate::order;
use crate::order::{sort_ranked, Ranked};
use crate::text;
use crate::text::{
    copy_optional, own_optional, same, slice_text, strip_prefix, strip_suffix, text_at_most,
    to_ascii_lower, to_chars, trim,
};
use vstd::prelude::*;
use vstd::string::*;

verus! {

// ---------------------------------------------------------------------------
// JSON in messages
// ---------------------------------------------------------------------------

/// A text without the fence of a code block around it.
pub open spec fn unfenced(t: Seq<char>) -> Seq<char> {
    let body = if text::has_prefix(t, "```json"@) {
        Some(text::trimmed(t.skip("```json"@.len() as int)))
    } else if text::has_prefix(t, "```"@) {
        Some(text::trimmed(t.skip("```"@.len() as int)))
    } else {
        None
    };
    match body {
        Some(b) => if text::has_suffix(b, "```"@) {
            text::trimmed(b.take(b.len() - "```"@.len()))
        } else {
            t
        },
        None => t,
    }
}

fn drop_fence(t: &str) -> (r: String)
    ensures
        r@ == unfenced(t@),
{
    let body = match strip_prefix(t, "```json") {
        Some(b) => Some(b),
        None => strip_prefix(t, "```"),
    };
    match body {
        Some(b) => match strip_suffix(trim(b.as_str()).as_str(), "```") {
            Some(inner) => trim(inner.as_str()),
            None => t.to_owned(),
        },
        None => t.to_owned(),
    }
}

/// What stands between the first opening and the last closing brace.
pub open spec fn braced(t: Seq<char>) -> Option<Seq<char>> {
    match (t.index_of_first('{'), t.index_of_last('}')) {
        (Some(start), Some(end)) => if end <= start {
            None
        } else {
            Some(t.subrange(start, end + 1))
        },
        _ => None,
    }
}

fn find_braced(t: &str) -> (r: Option<String>)
    ensures
        text::optional(r) == braced(t@),
{
    let chars = to_chars(t);
    proof {
        chars@.index_of_first_ensures('{');
        chars@.index_of_last_ensures('}');
    }
    let mut start: usize = 0;
    while start < chars.len() && chars[start] != '{'
        invariant
            start <= chars@.len(),
            forall|k: int| 0 <= k < start ==> chars@[k] != '{',
        decreases chars@.len() - start,
    {
        start += 1;
    }
    if start == chars.len() {
        assert(!chars@.contains('{'));
        return None;
    }
    assert(chars@.contains('{'));
    let mut end: usize = chars.len();
    while end > 0 && chars[end - 1] != '}'
        invariant
            end <= chars@.len(),
            forall|k: int| end <= k < chars@.len() ==> chars@[k] != '}',
        decreases end,
    {
        end -= 1;
    }
    if end == 0 {
        assert(!chars@.contains('}'));
        return None;
    }
    assert(chars@[end - 1] == '}');
    assert(chars@.contains('}'));
    if end - 1 <= start {
        return None;
    }
    Some(slice_text(&chars, start, end))
}

/// The JSON that a message carries: the whole of it, or what a code block holds, or
/// what stands in braces.
pub open spec fn payload(raw: Seq<char>) -> Option<JsonView> {
    let t = text::trimmed(raw);
    match json_text::read(t) {
        Some(v) => Some(v),
        None => match json_text::read(unfenced(t)) {
            Some(v) => Some(v),
            None => match braced(unfenced(t)) {
                Some(inner) => json_text::read(inner),
                None => None,
            },
        },
    }
}

/// A value that may be there.
pub open spec fn held(v: Option<Json>) -> Option<JsonView> {
    match v {
        Some(x) => Some(x@),
        None => None,
    }
}

/// The JSON that a message carries.
pub fn parse_json_payload(raw: &str) -> (r: Option<Json>)
    ensures
        held(r) == payload(raw@),
{
    let t = trim(raw);
    match parse_json(t.as_str()) {
        Some(v) => {
            return Some(v);
        },
        None => {},
    }
    let u = drop_fence(t.as_str());
    match parse_json(u.as_str()) {
        Some(v) => {
            return Some(v);
        },
        None => {},
    }
    match find_braced(u.as_str()) {
        Some(inner) => parse_json(inner.as_str()),
        None => None,
    }
}

/// The task that a value speaks of: its own, else that of its payload.
pub open spec fn task_id_of(v: JsonView) -> Option<Seq<char>> {
    match json::text_field(v, "task_id"@) {
        Some(t) => Some(t),
        None => match json::field(v, "payload"@) {
            Some(p) => json::text_field(p, "task_id"@),
            None => None,
        },
    }
}

/// The task that a value speaks of.
pub fn extract_task_id(value: &Json) -> (r: Option<String>)
    ensures
        text::optional(r) == task_id_of(value@),
{
    match get_text(value, "task_id") {
        Some(t) => Some(t.to_owned()),
        None => match get(value, "payload") {
            Some(p) => own_optional(get_text(p, "task_id")),
            None => None,
        },
    }
}

/// The status that a value reports, or else its type, where it is one of a task.
pub open spec fn status_of(v: JsonView) -> Option<Seq<char>> {
    let said = match json::text_field(v, "status"@) {
        Some(s) => Some(s),
        None => json::text_field(v, "type"@),
    };
    match said {
        Some(s) => {
            let status = text::lower_ascii(s);
            if status == "complete"@ || status == "blocked"@ || status == "in_progress"@ {
                Some(status)
            } else {
                None
            }
        },
        None => None,
    }
}

/// The status that a value reports.
pub fn extract_status(value: &Json) -> (r: Option<String>)
    ensures
        text::optional(r) == status_of(value@),
{
    let said = match get_text(value, "status") {
        Some(s) => Some(s),
        None => get_text(value, "type"),
    };
    match said {
        Some(s) => {
            let status = to_ascii_lower(s);
            if same(status.as_str(), "complete") || same(status.as_str(), "blocked") || same(
                status.as_str(),
                "in_progress",
            ) {
                Some(status)
            } else {
                None
            }
        },
        None => None,
    }
}

/// The task that a text speaks of.
pub open spec fn task_id_in(raw: Seq<char>) -> Option<Seq<char>> {
    match payload(raw) {
        Some(v) => task_id_of(v),
        None => None,
    }
}

/// The task that a text speaks of.
pub fn parse_task_id_from_json(raw: &str) -> (r: Option<String>)
    ensures
        text::optional(r) == task_id_in(raw@),
{
    match parse_json_payload(raw) {
        Some(v) => extract_task_id(&v),
        None => None,
    }
}

// ---------------------------------------------------------------------------
// Turns and outcomes
// ---------------------------------------------------------------------------

/// What is known of a turn so far.
#[derive(Debug)]
pub struct PartialTurn {
    pub state_seq: Option<u64>,
    pub prompt_hash: Option<String>,
    pub role: Option<String>,
    pub completion: Option<String>,
    pub output_action_kind: Option<String>,
    pub result: Option<String>,
    pub result_action_kind: Option<String>,
    pub result_task_id: Option<String>,
    pub result_ok: Option<bool>,
}

/// What is known of a turn, as texts.
pub struct TurnView {
    pub state_seq: Option<u64>,
    pub prompt_hash: Option<Seq<char>>,
    pub role: Option<Seq<char>>,
    pub completion: Option<Seq<char>>,
    pub output_action_kind: Option<Seq<char>>,
    pub result: Option<Seq<char>>,
    pub result_action_kind: Option<Seq<char>>,
    pub result_task_id: Option<Seq<char>>,
    pub result_ok: Option<bool>,
}

impl View for PartialTurn {
    type V = TurnView;

    open spec fn view(&self) -> TurnView {
        TurnView {
            state_seq: self.state_seq,
            prompt_hash: text::optional(self.prompt_hash),
            role: text::optional(self.role),
            completion: text::optional(self.completion),
            output_action_kind: text::optional(self.output_action_kind),
            result: text::optional(self.result),
            result_action_kind: text::optional(self.result_action_kind),
            result_task_id: text::optional(self.result_task_id),
            result_ok: self.result_ok,
        }
    }
}

/// A turn of which nothing is known.
pub open spec fn no_turn() -> TurnView {
    TurnView {
        state_seq: None,
        prompt_hash: None,
        role: None,
        completion: None,
        output_action_kind: None,
        result: None,
        result_action_kind: None,
        result_task_id: None,
        result_ok: None,
    }
}

/// How a task ended, and how often it was blocked.
#[derive(Debug)]
pub struct TaskOutcome {
    pub status: String,
    pub blocker_count: usize,
}

/// How a task ended, as texts.
pub struct OutcomeView {
    pub status: Seq<char>,
    pub blocker_count: usize,
}

impl View for TaskOutcome {
    type V = OutcomeView;

    open spec fn view(&self) -> OutcomeView {
        OutcomeView { status: self.status@, blocker_count: self.blocker_count }
    }
}

/// The outcome of a task of which nothing is known.
pub open spec fn unknown_outcome() -> OutcomeView {
    OutcomeView { status: "in_progress"@, blocker_count: 0 }
}

impl Default for TaskOutcome {
    fn default() -> (r: Self)
        ensures
            r@ == unknown_outcome(),
    {
        TaskOutcome { status: "in_progress".to_owned(), blocker_count: 0 }
    }
}

/// How many symbols became simpler and more complex.
#[derive(Debug, Clone, Copy, PartialEq, Eq, Structural)]
pub struct DriftCounts {
    pub improved: usize,
    pub regressed: usize,
}

/// What the log says so far: turns by command, outcomes and blockers by task, and the
/// last drift.
#[derive(Debug)]
pub struct Ledger {
    pub turns: Vec<Keyed<PartialTurn>>,
    pub outcomes: Vec<Keyed<TaskOutcome>>,
    pub blockers: Vec<Keyed<usize>>,
    pub drift: Option<DriftCounts>,
}

/// What the log says so far, as texts.
pub struct LedgerView {
    pub turns: Seq<(Seq<char>, TurnView)>,
    pub outcomes: Seq<(Seq<char>, OutcomeView)>,
    pub blockers: Seq<(Seq<char>, usize)>,
    pub drift: Option<DriftCounts>,
}

impl View for Ledger {
    type V = LedgerView;

    open spec fn view(&self) -> LedgerView {
        LedgerView {
            turns: keyed::entries(self.turns@),
            outcomes: keyed::entries(self.outcomes@),
            blockers: keyed::entries(self.blockers@),
            drift: self.drift,
        }
    }
}

/// A log of which nothing was read.
pub open spec fn empty_ledger() -> LedgerView {
    LedgerView {
        turns: Seq::empty(),
        outcomes: Seq::empty(),
        blockers: Seq::empty(),
        drift: None,
    }
}

/// The turn of a command.
pub open spec fn turn_of(l: LedgerView, command_id: Seq<char>) -> TurnView {
    match keyed::entry(l.turns, command_id) {
        Some(t) => t,
        None => no_turn(),
    }
}

/// The outcome of a task.
pub open spec fn outcome_of(
    outcomes: Seq<(Seq<char>, OutcomeView)>,
    task_id: Seq<char>,
) -> OutcomeView {
    match keyed::entry(outcomes, task_id) {
        Some(o) => o,
        None => unknown_outcome(),
    }
}

/// The outcomes after a result failed: the task is blocked, unless it is complete.
pub open spec fn with_failure(
    outcomes: Seq<(Seq<char>, OutcomeView)>,
    task_id: Seq<char>,
) -> Seq<(Seq<char>, OutcomeView)> {
    let o = outcome_of(outcomes, task_id);
    keyed::with_entry(
        outcomes,
        task_id,
        if o.status == "complete"@ {
            o
        } else {
            OutcomeView { status: "blocked"@, ..o }
        },
    )
}

/// The outcomes after a report on a task. It counts blockers only where it names
/// some.
pub open spec fn with_report(
    outcomes: Seq<(Seq<char>, OutcomeView)>,
    task_id: Seq<char>,
    status: Seq<char>,
    blocker_count: usize,
) -> Seq<(Seq<char>, OutcomeView)> {
    let o = outcome_of(outcomes, task_id);
    keyed::with_entry(
        outcomes,
        task_id,
        OutcomeView {
            status,
            blocker_count: if blocker_count > 0 {
                blocker_count
            } else {
                o.blocker_count
            },
        },
    )
}

/// The blockers that a value counts.
pub open spec fn blockers_in(v: JsonView) -> usize {
    match json::field(v, "blocker_count"@) {
        Some(JsonView::Uint(n)) => n as usize,
        _ => 0,
    }
}

/// The outcomes after a message.
pub open spec fn with_message(
    outcomes: Seq<(Seq<char>, OutcomeView)>,
    carried: Option<JsonView>,
) -> Seq<(Seq<char>, OutcomeView)> {
    match carried {
        Some(v) => match (task_id_of(v), status_of(v)) {
            (Some(task_id), Some(status)) => with_report(
                outcomes,
                task_id,
                status,
                blockers_in(v),
            ),
            _ => outcomes,
        },
        None => outcomes,
    }
}

/// A count after one more, as far as a count goes.
pub open spec fn one_more(n: usize) -> usize {
    if n < usize::MAX {
        (n + 1) as usize
    } else {
        n
    }
}

/// What the log says after one more effect.
pub open spec fn after_effect(l: LedgerView, seq: u64, event: EffectEvent) -> LedgerView {
    match event {
        EffectEvent::LlmTurnInput { role, command_id, prompt_hash, .. } => LedgerView {
            turns: keyed::with_entry(
                l.turns,
                command_id@,
                TurnView {
                    state_seq: Some(seq),
                    prompt_hash: Some(prompt_hash@),
                    role: Some(role@),
                    ..turn_of(l, command_id@)
                },
            ),
            ..l
        },
        EffectEvent::LlmTurnOutput { role, command_id, raw, action_kind, .. } => {
            let t = turn_of(l, command_id@);
            LedgerView {
                turns: keyed::with_entry(
                    l.turns,
                    command_id@,
                    TurnView {
                        completion: Some(raw@),
                        output_action_kind: text::optional(action_kind),
                        role: if t.role is Some {
                            t.role
                        } else {
                            Some(role@)
                        },
                        ..t
                    },
                ),
                ..l
            }
        },
        EffectEvent::ActionResultRecorded { command_id, action_kind, task_id, ok, result, .. } => {
            LedgerView {
                turns: keyed::with_entry(
                    l.turns,
                    command_id@,
                    TurnView {
                        result: Some(result@),
                        result_action_kind: Some(action_kind@),
                        result_task_id: text::optional(task_id),
                        result_ok: Some(ok),
                        ..turn_of(l, command_id@)
                    },
                ),
                outcomes: match task_id {
                    Some(t) => if ok {
                        l.outcomes
                    } else {
                        with_failure(l.outcomes, t@)
                    },
                    None => l.outcomes,
                },
                ..l
            }
        },
        EffectEvent::InboundMessageRecorded { message, .. } => LedgerView {
            outcomes: with_message(l.outcomes, payload(message@)),
            ..l
        },
        EffectEvent::BlockerRecorded { record } => match record.task_id {
            Some(t) => LedgerView {
                blockers: keyed::with_entry(
                    l.blockers,
                    t@,
                    match keyed::entry(l.blockers, t@) {
                        Some(n) => one_more(n),
                        None => 1,
                    },
                ),
                ..l
            },
            None => l,
        },
        EffectEvent::FingerprintDriftRecorded { drift } => LedgerView {
            drift: Some(
                DriftCounts {
                    improved: drift.improved@.len() as usize,
                    regressed: drift.regressed@.len() as usize,
                },
            ),
            ..l
        },
        _ => l,
    }
}

fn copy_turn(t: &PartialTurn) -> (r: PartialTurn)
    ensures
        r@ == t@,
{
    PartialTurn {
        state_seq: t.state_seq,
        prompt_hash: copy_optional(&t.prompt_hash),
        role: copy_optional(&t.role),
        completion: copy_optional(&t.completion),
        output_action_kind: copy_optional(&t.output_action_kind),
        result: copy_optional(&t.result),
        result_action_kind: copy_optional(&t.result_action_kind),
        result_task_id: copy_optional(&t.result_task_id),
        result_ok: t.result_ok,
    }
}

fn find_turn(l: &Ledger, command_id: &str) -> (r: PartialTurn)
    ensures
        r@ == turn_of(l@, command_id@),
{
    match find_entry(&l.turns, command_id) {
        Some(i) => copy_turn(&l.turns[i].value),
        None => PartialTurn {
            state_seq: None,
            prompt_hash: None,
            role: None,
            completion: None,
            output_action_kind: None,
            result: None,
            result_action_kind: None,
            result_task_id: None,
            result_ok: None,
        },
    }
}

fn find_outcome(outcomes: &Vec<Keyed<TaskOutcome>>, task_id: &str) -> (r: TaskOutcome)
    ensures
        r@ == outcome_of(keyed::entries(outcomes@), task_id@),
{
    match find_entry(outcomes, task_id) {
        Some(i) => TaskOutcome {
            status: outcomes[i].value.status.as_str().to_owned(),
            blocker_count: outcomes[i].value.blocker_count,
        },
        None => TaskOutcome::default(),
    }
}

/// Notes that a result failed.
pub fn mark_task_blocked_unless_complete(
    outcomes: &mut Vec<Keyed<TaskOutcome>>,
    task_id: &str,
)
    ensures
        keyed::entries(final(outcomes)@) == with_failure(
            keyed::entries(old(outcomes)@),
            task_id@,
        ),
{
    let mut o = find_outcome(outcomes, task_id);
    if !same(o.status.as_str(), "complete") {
        o.status = "blocked".to_owned();
    }
    put_entry(outcomes, task_id, o);
}

/// Notes a report on a task.
pub fn update_task_outcome(
    outcomes: &mut Vec<Keyed<TaskOutcome>>,
    task_id: &str,
    status: &str,
    blocker_count: usize,
)
    ensures
        keyed::entries(final(outcomes)@) == with_report(
            keyed::entries(old(outcomes)@),
            task_id@,
            status@,
            blocker_count,
        ),
{
    let o = find_outcome(outcomes, task_id);
    let count: usize = if blocker_count > 0 {
        blocker_count
    } else {
        o.blocker_count
    };
    put_entry(
        outcomes,
        task_id,
        TaskOutcome { status: status.to_owned(), blocker_count: count },
    );
}

/// Notes what a message, or the value that it carries, says of a task.
pub fn update_outcome_from_value(
    outcomes: &mut Vec<Keyed<TaskOutcome>>,
    carried: &Option<Json>,
)
    ensures
        keyed::entries(final(outcomes)@) == with_message(
            keyed::entries(old(outcomes)@),
            held(*carried),
        ),
{
    match carried {
        Some(v) => {
            let task_id = extract_task_id(v);
            let status = extract_status(v);
            let count: usize = match get(v, "blocker_count") {
                Some(Json::Uint(n)) => *n as usize,
                _ => 0,
            };
            match (task_id, status) {
                (Some(t), Some(s)) => {
                    update_task_outcome(outcomes, t.as_str(), s.as_str(), count);
                },
                _ => {},
            }
        },
        None => {},
    }
}

/// Notes one more effect of the log.
pub fn apply_effect_event(ledger: &mut Ledger, seq: u64, event: &EffectEvent)
    ensures
        final(ledger)@ == after_effect(old(ledger)@, seq, *event),
{
    match event {
        EffectEvent::LlmTurnInput { role, command_id, prompt_hash, .. } => {
            let mut t = find_turn(ledger, command_id.as_str());
            t.state_seq = Some(seq);
            t.prompt_hash = Some(prompt_hash.as_str().to_owned());
            t.role = Some(role.as_str().to_owned());
            put_entry(&mut ledger.turns, command_id.as_str(), t);
        },
        EffectEvent::LlmTurnOutput { role, command_id, raw, action_kind, .. } => {
            let mut t = find_turn(ledger, command_id.as_str());
            t.completion = Some(raw.as_str().to_owned());
            t.output_action_kind = copy_optional(action_kind);
            if t.role.is_none() {
                t.role = Some(role.as_str().to_owned());
            }
            put_entry(&mut ledger.turns, command_id.as_str(), t);
        },
        EffectEvent::ActionResultRecorded { command_id, action_kind, task_id, ok, result, .. } => {
            let mut t = find_turn(ledger, command_id.as_str());
            t.result = Some(result.as_str().to_owned());
            t.result_action_kind = Some(action_kind.as_str().to_owned());
            t.result_task_id = copy_optional(task_id);
            t.result_ok = Some(*ok);
            put_entry(&mut ledger.turns, command_id.as_str(), t);
            match task_id {
                Some(task) => {
                    if !*ok {
                        mark_task_blocked_unless_complete(&mut ledger.outcomes, task.as_str());
                    }
                },
                None => {},
            }
        },
        EffectEvent::InboundMessageRecorded { message, .. } => {
            let carried = parse_json_payload(message.as_str());
            update_outcome_from_value(&mut ledger.outcomes, &carried);
        },
        EffectEvent::BlockerRecorded { record } => {
            match &record.task_id {
                Some(task) => {
                    let n: usize = match find_entry(&ledger.blockers, task.as_str()) {
                        Some(i) => ledger.blockers[i].value.saturating_add(1),
                        None => 1,
                    };
                    put_entry(&mut ledger.blockers, task.as_str(), n);
                },
                None => {},
            }
        },
        EffectEvent::FingerprintDriftRecorded { drift } => {
            ledger.drift = Some(
                DriftCounts { improved: drift.improved.len(), regressed: drift.regressed.len() },
            );
        },
        _ => {},
    }
}

/// What the log says.
pub open spec fn read_log(records: Seq<TlogRecord>) -> LedgerView
    decreases records.len(),
{
    if records.len() == 0 {
        empty_ledger()
    } else {
        let before = read_log(records.drop_last());
        match records.last().event {
            Event::Effect { event } => after_effect(before, records.last().seq, event),
            _ => before,
        }
    }
}

/// Reads the log.
pub fn collect_ledger(records: &Vec<TlogRecord>) -> (r: Ledger)
    ensures
        r@ == read_log(records@),
{
    let mut ledger = Ledger {
        turns: Vec::new(),
        outcomes: Vec::new(),
        blockers: Vec::new(),
        drift: None,
    };
    let mut i: usize = 0;
    proof {
        assert(records@.take(0) =~= Seq::<TlogRecord>::empty());
        assert(keyed::entries(ledger.turns@) =~= Seq::<(Seq<char>, TurnView)>::empty());
        assert(keyed::entries(ledger.outcomes@) =~= Seq::<(Seq<char>, OutcomeView)>::empty());
        assert(keyed::entries(ledger.blockers@) =~= Seq::<(Seq<char>, usize)>::empty());
    }
    while i < records.len()
        invariant
            i <= records@.len(),
            ledger@ == read_log(records@.take(i as int)),
        decreases records@.len() - i,
    {
        proof {
            assert(records@.take(i + 1).drop_last() =~= records@.take(i as int));
            assert(records@.take(i + 1).last() == records@[i as int]);
        }
        match &records[i].event {
            Event::Effect { event } => {
                apply_effect_event(&mut ledger, records[i].seq, event);
            },
            _ => {},
        }
        i += 1;
    }
    assert(records@.take(i as int) =~= records@);
    ledger
}

/// The outcomes with the blockers that were counted for their tasks.
pub open spec fn with_blockers(
    outcomes: Seq<(Seq<char>, OutcomeView)>,
    blockers: Seq<(Seq<char>, usize)>,
) -> Seq<(Seq<char>, OutcomeView)>
    decreases blockers.len(),
{
    if blockers.len() == 0 {
        outcomes
    } else {
        let before = with_blockers(outcomes, blockers.drop_last());
        let (task_id, count) = blockers.last();
        keyed::with_entry(
            before,
            task_id,
            OutcomeView { blocker_count: count, ..outcome_of(before, task_id) },
        )
    }
}

fn settle_blockers(outcomes: &mut Vec<Keyed<TaskOutcome>>, blockers: &Vec<Keyed<usize>>)
    ensures
        keyed::entries(final(outcomes)@) == with_blockers(
            keyed::entries(old(outcomes)@),
            keyed::entries(blockers@),
        ),
{
    let ghost start = keyed::entries(outcomes@);
    let ghost all = keyed::entries(blockers@);
    let mut i: usize = 0;
    assert(all.take(0) =~= Seq::<(Seq<char>, usize)>::empty());
    while i < blockers.len()
        invariant
            i <= blockers@.len(),
            all == keyed::entries(blockers@),
            keyed::entries(outcomes@) == with_blockers(start, all.take(i as int)),
        decreases blockers@.len() - i,
    {
        proof {
            assert(all.take(i + 1).drop_last() =~= all.take(i as int));
            assert(all.take(i + 1).last() == blockers@[i as int]@);
        }
        let mut o = find_outcome(outcomes, blockers[i].key.as_str());
        o.blocker_count = blockers[i].value;
        put_entry(outcomes, blockers[i].key.as_str(), o);
        i += 1;
    }
    assert(all.take(i as int) =~= all);
}

// ---------------------------------------------------------------------------
// Rows
// ---------------------------------------------------------------------------

/// What the outcome of a task is worth, in twentieths: one where it is complete,
/// minus one half and a twentieth for each blocker where it is blocked.
pub open spec fn base_reward(o: OutcomeView) -> int {
    if o.status == "complete"@ {
        20
    } else if o.status == "blocked"@ {
        -10 - o.blocker_count
    } else {
        0
    }
}

/// What the outcome of a task is worth, in twentieths.
pub fn base_reward_twentieths(o: &TaskOutcome) -> (r: i128)
    ensures
        r == base_reward(o@),
{
    if same(o.status.as_str(), "complete") {
        20
    } else if same(o.status.as_str(), "blocked") {
        -10 - (o.blocker_count as i128)
    } else {
        0
    }
}

/// A complete task is worth more than any other, and a blocked one less, the less the
/// more blockers it had.
pub proof fn law_completion_is_worth_most(a: OutcomeView, b: OutcomeView)
    requires
        a.status == "complete"@,
        b.status != "complete"@,
    ensures
        base_reward(a) > base_reward(b),
        b.status == "blocked"@ ==> base_reward(b) < 0,
{
}

/// What a drift is worth, as a fraction: each symbol that became simpler counts for
/// one, each that became more complex against one and a half, over how many there
/// are.
pub open spec fn drift_fraction(d: Option<DriftCounts>) -> (int, int) {
    match d {
        Some(c) => {
            let moved = c.improved + c.regressed;
            (
                2 * c.improved - 3 * c.regressed,
                2 * if moved < 1 {
                    1
                } else {
                    moved
                },
            )
        },
        None => (0, 2),
    }
}

/// What a drift is worth, as a fraction.
pub fn drift_reward_fraction(d: Option<DriftCounts>) -> (r: (i128, i128))
    ensures
        (r.0 as int, r.1 as int) == drift_fraction(d),
{
    match d {
        Some(c) => {
            let improved: i128 = c.improved as i128;
            let regressed: i128 = c.regressed as i128;
            let moved: i128 = improved + regressed;
            let parts: i128 = if moved < 1 {
                1
            } else {
                moved
            };
            (2 * improved - 3 * regressed, 2 * parts)
        },
        None => (0, 2),
    }
}

/// A drift is worth at most one, and no less than minus one and a half.
pub proof fn law_drift_reward_is_bounded(d: Option<DriftCounts>)
    ensures
        drift_fraction(d).1 > 0,
        drift_fraction(d).0 <= drift_fraction(d).1,
        2 * drift_fraction(d).0 >= -3 * drift_fraction(d).1,
{
}

/// A row to train on: a prompt, its completion and what came of it.
#[derive(Debug)]
pub struct TrainingRow {
    pub group_key: String,
    pub command_id: String,
    pub state_seq: u64,
    pub prompt_hash: String,
    pub completion: String,
    pub result: String,
    pub action_kind: String,
    pub role: String,
    pub reward_twentieths: i128,
}

/// A row as texts.
pub struct RowView {
    pub group_key: Seq<char>,
    pub command_id: Seq<char>,
    pub state_seq: u64,
    pub prompt_hash: Seq<char>,
    pub completion: Seq<char>,
    pub result: Seq<char>,
    pub action_kind: Seq<char>,
    pub role: Seq<char>,
    pub reward_twentieths: int,
}

impl View for TrainingRow {
    type V = RowView;

    open spec fn view(&self) -> RowView {
        RowView {
            group_key: self.group_key@,
            command_id: self.command_id@,
            state_seq: self.state_seq,
            prompt_hash: self.prompt_hash@,
            completion: self.completion@,
            result: self.result@,
            action_kind: self.action_kind@,
            role: self.role@,
            reward_twentieths: self.reward_twentieths as int,
        }
    }
}

impl Ranked for TrainingRow {
    open spec fn rank_le(a: RowView, b: RowView) -> bool {
        if a.group_key == b.group_key {
            a.state_seq <= b.state_seq
        } else {
            text::text_le(a.group_key, b.group_key)
        }
    }

    fn ranks_at_most(&self, other: &Self) -> bool {
        if same(self.group_key.as_str(), other.group_key.as_str()) {
            self.state_seq <= other.state_seq
        } else {
            text_at_most(self.group_key.as_str(), other.group_key.as_str())
        }
    }

    proof fn rank_total(a: RowView, b: RowView) {
        text::lemma_text_le_total(a.group_key, b.group_key);
    }

    proof fn rank_transitive(a: RowView, b: RowView, c: RowView) {
        if a.group_key != b.group_key && b.group_key != c.group_key {
            text::lemma_text_le_transitive(a.group_key, b.group_key, c.group_key);
            if a.group_key == c.group_key {
                text::lemma_text_le_antisymmetric(a.group_key, b.group_key);
            }
        }
    }
}

/// The first text that is there, or else a default.
pub open spec fn first_of(
    a: Option<Seq<char>>,
    b: Option<Seq<char>>,
    default: Seq<char>,
) -> Seq<char> {
    match a {
        Some(t) => t,
        None => match b {
            Some(t) => t,
            None => default,
        },
    }
}

fn take_first(a: Option<String>, b: Option<String>, default: &str) -> (r: String)
    ensures
        r@ == first_of(text::optional(a), text::optional(b), default@),
{
    match a {
        Some(t) => t,
        None => match b {
            Some(t) => t,
            None => default.to_owned(),
        },
    }
}

/// The task that a turn belongs to: the one that its result names, else the one that
/// its completion speaks of, else one of its own.
pub open spec fn group_of(command_id: Seq<char>, t: TurnView) -> Seq<char> {
    first_of(t.result_task_id, task_id_in(t.completion->0), command_id)
}

/// The row of a turn, where its prompt, its completion and its result are known.
pub open spec fn row_of(
    command_id: Seq<char>,
    t: TurnView,
    outcomes: Seq<(Seq<char>, OutcomeView)>,
) -> Option<RowView> {
    match (t.state_seq, t.prompt_hash, t.completion, t.result) {
        (Some(state_seq), Some(prompt_hash), Some(completion), Some(result)) => Some(
            RowView {
                group_key: group_of(command_id, t),
                command_id,
                state_seq,
                prompt_hash,
                completion,
                result,
                action_kind: first_of(t.result_action_kind, t.output_action_kind, "unknown"@),
                role: first_of(t.role, None, "unknown"@),
                reward_twentieths: base_reward(outcome_of(outcomes, group_of(command_id, t))),
            },
        ),
        _ => None,
    }
}

/// A row that may be there.
pub open spec fn row_view(r: Option<TrainingRow>) -> Option<RowView> {
    match r {
        Some(row) => Some(row@),
        None => None,
    }
}

/// The row of a turn.
pub fn build_row(
    command_id: &str,
    turn: &PartialTurn,
    outcomes: &Vec<Keyed<TaskOutcome>>,
) -> (r: Option<TrainingRow>)
    ensures
        row_view(r) == row_of(command_id@, turn@, keyed::entries(outcomes@)),
{
    match (&turn.state_seq, &turn.prompt_hash, &turn.completion, &turn.result) {
        (Some(state_seq), Some(prompt_hash), Some(completion), Some(result)) => {
            let group_key = take_first(
                copy_optional(&turn.result_task_id),
                parse_task_id_from_json(completion.as_str()),
                command_id,
            );
            let outcome = find_outcome(outcomes, group_key.as_str());
            Some(
                TrainingRow {
                    command_id: command_id.to_owned(),
                    state_seq: *state_seq,
                    prompt_hash: prompt_hash.as_str().to_owned(),
                    completion: completion.as_str().to_owned(),
                    result: result.as_str().to_owned(),
                    action_kind: take_first(
                        copy_optional(&turn.result_action_kind),
                        copy_optional(&turn.output_action_kind),
                        "unknown",
                    ),
                    role: take_first(copy_optional(&turn.role), None, "unknown"),
                    reward_twentieths: base_reward_twentieths(&outcome),
                    group_key,
                },
            )
        },
        _ => None,
    }
}

/// The rows of turns.
pub open spec fn rows_of(
    turns: Seq<(Seq<char>, TurnView)>,
    outcomes: Seq<(Seq<char>, OutcomeView)>,
) -> Seq<RowView>
    decreases turns.len(),
{
    if turns.len() == 0 {
        Seq::empty()
    } else {
        let before = rows_of(turns.drop_last(), outcomes);
        match row_of(turns.last().0, turns.last().1, outcomes) {
            Some(row) => before.push(row),
            None => before,
        }
    }
}

/// The rows by task, and by their place in the log.
pub open spec fn ordered_rows(rows: Seq<RowView>) -> Seq<RowView> {
    order::stable_sorted(rows, |a: RowView, b: RowView| <TrainingRow as Ranked>::rank_le(a, b))
}

/// The rows of one task: how many there are, and how it ended.
#[derive(Debug)]
pub struct GroupStats {
    pub group_key: String,
    pub n: usize,
    pub outcome: String,
}

/// The rows of one task, as texts.
pub struct GroupView {
    pub group_key: Seq<char>,
    pub n: nat,
    pub outcome: Seq<char>,
}

impl View for GroupStats {
    type V = GroupView;

    open spec fn view(&self) -> GroupView {
        GroupView { group_key: self.group_key@, n: self.n as nat, outcome: self.outcome@ }
    }
}

/// The tasks of rows.
pub open spec fn keys_of(rows: Seq<RowView>) -> Seq<Seq<char>> {
    rows.map_values(|r: RowView| r.group_key)
}

/// How many rows a task has.
pub open spec fn rows_in(keys: Seq<Seq<char>>, key: Seq<char>) -> nat
    decreases keys.len(),
{
    if keys.len() == 0 {
        0
    } else {
        rows_in(keys.drop_last(), key) + if keys.last() == key {
            1nat
        } else {
            0nat
        }
    }
}

/// The tasks of rows in their order, each with its rows and how it ended.
pub open spec fn groups_for(
    rows: Seq<RowView>,
    outcomes: Seq<(Seq<char>, OutcomeView)>,
) -> Seq<GroupView> {
    let keys = keys_of(rows);
    groups::sorted_set(keys).map_values(
        |k: Seq<char>|
            GroupView {
                group_key: k,
                n: rows_in(keys, k),
                outcome: outcome_of(outcomes, k).status,
            },
    )
}

fn count_rows(keys: &Vec<String>, key: &str) -> (r: usize)
    ensures
        r == rows_in(text::texts(keys@), key@),
{
    let ghost all = text::texts(keys@);
    let mut n: usize = 0;
    let mut i: usize = 0;
    assert(all.take(0) =~= Seq::<Seq<char>>::empty());
    while i < keys.len()
        invariant
            i <= keys@.len(),
            n <= i,
            all == text::texts(keys@),
            n == rows_in(all.take(i as int), key@),
        decreases keys@.len() - i,
    {
        proof {
            assert(all.take(i + 1).drop_last() =~= all.take(i as int));
            assert(all.take(i + 1).last() == keys@[i as int]@);
        }
        if same(keys[i].as_str(), key) {
            n += 1;
        }
        i += 1;
    }
    assert(all.take(i as int) =~= all);
    n
}

/// Rows to train on, by task, with what the last drift was.
#[derive(Debug)]
pub struct GrpoDataset {
    pub evolution: u64,
    pub generated_ms: u64,
    pub rows: Vec<TrainingRow>,
    pub group_stats: Vec<GroupStats>,
    pub drift: Option<DriftCounts>,
}

/// The outcomes that a log leads to.
pub open spec fn final_outcomes(l: LedgerView) -> Seq<(Seq<char>, OutcomeView)> {
    with_blockers(l.outcomes, l.blockers)
}

/// The rows that a log leads to.
pub open spec fn dataset_rows(l: LedgerView) -> Seq<RowView> {
    ordered_rows(rows_of(l.turns, final_outcomes(l)))
}

/// The data to train on, from the log.
pub fn extract_grpo_dataset(records: &Vec<TlogRecord>, evolution: u64, generated_ms: u64) -> (r:
    GrpoDataset)
    ensures
        r.evolution == evolution,
        r.generated_ms == generated_ms,
        order::views(r.rows@) == dataset_rows(read_log(records@)),
        order::views(r.group_stats@) == groups_for(
            dataset_rows(read_log(records@)),
            final_outcomes(read_log(records@)),
        ),
        r.drift == read_log(records@).drift,
{
    let ghost l = read_log(records@);
    let Ledger { turns, outcomes: held_outcomes, blockers, drift } = collect_ledger(records);
    let mut outcomes = held_outcomes;
    settle_blockers(&mut outcomes, &blockers);
    let ghost settled = keyed::entries(outcomes@);
    let ghost all = keyed::entries(turns@);
    assert(settled == final_outcomes(l));
    let mut rows: Vec<TrainingRow> = Vec::new();
    let mut i: usize = 0;
    proof {
        assert(all.take(0) =~= Seq::<(Seq<char>, TurnView)>::empty());
        assert(order::views(rows@) =~= Seq::<RowView>::empty());
    }
    while i < turns.len()
        invariant
            i <= turns@.len(),
            all == keyed::entries(turns@),
            settled == keyed::entries(outcomes@),
            order::views(rows@) == rows_of(all.take(i as int), settled),
        decreases turns@.len() - i,
    {
        proof {
            assert(all.take(i + 1).drop_last() =~= all.take(i as int));
            assert(all.take(i + 1).last() == turns@[i as int]@);
        }
        let ghost before = order::views(rows@);
        match build_row(turns[i].key.as_str(), &turns[i].value, &outcomes) {
            Some(row) => {
                rows.push(row);
                assert(order::views(rows@) =~= before.push(row@));
            },
            None => {},
        }
        i += 1;
    }
    assert(all.take(i as int) =~= all);
    let rows = sort_ranked(rows);
    let ghost ordered = order::views(rows@);
    assert(ordered == dataset_rows(l));
    let mut keys: Vec<String> = Vec::new();
    let mut n: usize = 0;
    while n < rows.len()
        invariant
            n <= rows@.len(),
            ordered == order::views(rows@),
            keys@.len() == n,
            forall|k: int| 0 <= k < n ==> (#[trigger] keys@[k])@ == ordered[k].group_key,
        decreases rows@.len() - n,
    {
        assert(ordered[n as int] == rows@[n as int]@);
        keys.push(rows[n].group_key.as_str().to_owned());
        n += 1;
    }
    assert(text::texts(keys@) =~= keys_of(ordered));
    let names = sorted_distinct(&keys);
    let ghost sorted = text::texts(names@);
    let mut group_stats: Vec<GroupStats> = Vec::new();
    let mut g: usize = 0;
    while g < names.len()
        invariant
            g <= names@.len(),
            sorted == text::texts(names@),
            text::texts(keys@) == keys_of(ordered),
            settled == keyed::entries(outcomes@),
            group_stats@.len() == g,
            forall|k: int|
                0 <= k < g ==> (#[trigger] group_stats@[k])@ == (GroupView {
                    group_key: sorted[k],
                    n: rows_in(keys_of(ordered), sorted[k]),
                    outcome: outcome_of(settled, sorted[k]).status,
                }),
        decreases names@.len() - g,
    {
        assert(sorted[g as int] == names@[g as int]@);
        let outcome = find_outcome(&outcomes, names[g].as_str());
        group_stats.push(
            GroupStats {
                group_key: names[g].as_str().to_owned(),
                n: count_rows(&keys, names[g].as_str()),
                outcome: outcome.status,
            },
        );
        g += 1;
    }
    assert(order::views(group_stats@) =~= groups_for(ordered, settled));
    GrpoDataset { evolution, generated_ms, rows, group_stats, drift }
}

/// What is recorded of a dataset.
pub fn grpo_dataset_effect(dataset: &GrpoDataset) -> (r: EffectEvent)
    ensures
        r matches EffectEvent::GrpoDatasetRecorded { row_count, group_count } && row_count
            == dataset.rows@.len() && group_count == dataset.group_stats@.len(),
{
    EffectEvent::GrpoDatasetRecorded {
        row_count: dataset.rows.len(),
        group_count: dataset.group_stats.len(),
    }
}

/// Records the data in the log of a writer, to which the log answers `appended`.
pub fn record_grpo_dataset_effect<S>(
    writer: &mut CanonicalWriter<S>,
    dataset: &GrpoDataset,
    appended: Result<u64, String>,
) -> (r: Result<(), String>)
    ensures
        match appended {
            Ok(seq) => {
                &&& r is Ok
                &&& final(writer).only_logged(
                    old(writer),
                    Event::Effect {
                        event: EffectEvent::GrpoDatasetRecorded {
                            row_count: dataset.rows.len(),
                            group_count: dataset.group_stats.len(),
                        },
                    },
                    seq,
                )
            },
            Err(reason) => {
                &&& canonical_writer::error_text(r) == Some(
                    canonical_writer::refusal("tlog effect append failed"@, reason@),
                )
                &&& *final(writer) == *old(writer)
            },
        },
{
    writer.try_record_effect(grpo_dataset_effect(dataset), appended)
}

/// A task that was completed is not blocked by a result that fails later.
pub proof fn law_a_complete_task_stays_complete(
    outcomes: Seq<(Seq<char>, OutcomeView)>,
    task_id: Seq<char>,
    failed: Seq<char>,
)
    requires
        outcome_of(outcomes, task_id).status == "complete"@,
    ensures
        outcome_of(with_failure(outcomes, failed), task_id).status == "complete"@,
{
    let o = outcome_of(outcomes, failed);
    let value = if o.status == "complete"@ {
        o
    } else {
        OutcomeView { status: "blocked"@, ..o }
    };
    keyed::law_entry_reads_what_was_put(outcomes, failed, value, task_id);
}

/// The rows of a task stand together, in the order of the log.
pub proof fn law_rows_are_ordered(l: LedgerView)
    ensures
        order::in_order(
            dataset_rows(l),
            |a: RowView, b: RowView| <TrainingRow as Ranked>::rank_le(a, b),
        ),
        dataset_rows(l).to_multiset() == rows_of(l.turns, final_outcomes(l)).to_multiset(),
{
    let le = |a: RowView, b: RowView| <TrainingRow as Ranked>::rank_le(a, b);
    assert forall|a: RowView, b: RowView| #[trigger] le(a, b) || le(b, a) by {
        <TrainingRow as Ranked>::rank_total(a, b);
    }
    assert forall|a: RowView, b: RowView, c: RowView| #[trigger]
        le(a, b) && #[trigger] le(b, c) implies le(a, c) by {
        <TrainingRow as Ranked>::rank_transitive(a, b, c);
    }
    order::lemma_stable_sorted(rows_of(l.turns, final_outcomes(l)), le);
}

} // verus!
