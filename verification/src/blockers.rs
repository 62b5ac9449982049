//! Classified bad outcomes and the rolling log that keeps the newest of them.
//!
//! Every bad outcome, a blocker message or a failed action, is classified and
//! recorded; invariant synthesis counts the records by actor and class.

use crate::canonical_writer;
use crate::canonical_writer::CanonicalWriter;
use crate::error_class;
use crate::error_class::{classify_blocker_summary, classify_result, ErrorClass};
use crate::events::{EffectEvent, Event, TlogRecord};
use crate::text;
use crate::text::{copy_optional, decimal, first_line, own_optional, starts_with};
use vstd::prelude::*;
use vstd::string::*;

verus! {

/// The file that holds the rolling log, below the workspace.
pub const BLOCKERS_FILE: &'static str = "agent_state/blockers.json";

/// The log keeps at most this many records.
pub const MAX_BLOCKER_RECORDS: usize = 500;

/// A classified bad outcome.
#[derive(Debug)]
pub struct BlockerRecord {
    /// Made of the actor, the class and the time.
    pub id: String,
    pub error_class: ErrorClass,
    /// The role that had the bad outcome.
    pub actor: String,
    pub task_id: Option<String>,
    pub objective_id: Option<String>,
    pub summary: String,
    /// The kind of action that produced the outcome.
    pub action_kind: String,
    /// `blocker_message` or `action_result`.
    pub source: String,
    pub ts_ms: u64,
}

/// A classified bad outcome as a mathematical value.
pub struct BlockerView {
    pub id: Seq<char>,
    pub error_class: ErrorClass,
    pub actor: Seq<char>,
    pub task_id: Option<Seq<char>>,
    pub objective_id: Option<Seq<char>>,
    pub summary: Seq<char>,
    pub action_kind: Seq<char>,
    pub source: Seq<char>,
    pub ts_ms: u64,
}

impl View for BlockerRecord {
    type V = BlockerView;

    open spec fn view(&self) -> BlockerView {
        BlockerView {
            id: self.id@,
            error_class: self.error_class,
            actor: self.actor@,
            task_id: text::optional(self.task_id),
            objective_id: text::optional(self.objective_id),
            summary: self.summary@,
            action_kind: self.action_kind@,
            source: self.source@,
            ts_ms: self.ts_ms,
        }
    }
}

impl Clone for BlockerRecord {
    fn clone(&self) -> (r: Self)
        ensures
            r@ == self@,
    {
        BlockerRecord {
            id: self.id.clone(),
            error_class: self.error_class,
            actor: self.actor.clone(),
            task_id: copy_optional(&self.task_id),
            objective_id: copy_optional(&self.objective_id),
            summary: self.summary.clone(),
            action_kind: self.action_kind.clone(),
            source: self.source.clone(),
            ts_ms: self.ts_ms,
        }
    }
}

/// The rolling log.
#[derive(Debug)]
pub struct BlockersFile {
    pub version: u32,
    pub blockers: Vec<BlockerRecord>,
}

/// The records of a list.
pub open spec fn outcomes(v: Seq<BlockerRecord>) -> Seq<BlockerView> {
    v.map_values(|b: BlockerRecord| b@)
}

impl View for BlockersFile {
    type V = (u32, Seq<BlockerView>);

    open spec fn view(&self) -> (u32, Seq<BlockerView>) {
        (self.version, outcomes(self.blockers@))
    }
}

impl Default for BlockersFile {
    fn default() -> (r: Self)
        ensures
            r@ == (0u32, Seq::<BlockerView>::empty()),
    {
        let r = BlockersFile { version: 0, blockers: Vec::new() };
        assert(outcomes(r.blockers@) =~= Seq::<BlockerView>::empty());
        r
    }
}

/// The newest records of a list, at most as many as the log keeps.
pub open spec fn newest(s: Seq<BlockerView>) -> Seq<BlockerView> {
    if s.len() > MAX_BLOCKER_RECORDS {
        s.skip(s.len() - MAX_BLOCKER_RECORDS)
    } else {
        s
    }
}

/// Drops the oldest records beyond the cap.
fn keep_newest(file: &mut BlockersFile)
    ensures
        final(file)@ == (old(file)@.0, newest(old(file)@.1)),
{
    let ghost before = outcomes(file.blockers@);
    if file.blockers.len() > MAX_BLOCKER_RECORDS {
        let cut: usize = file.blockers.len() - MAX_BLOCKER_RECORDS;
        let kept = file.blockers.split_off(cut);
        file.blockers = kept;
    }
    assert(outcomes(file.blockers@) =~= newest(before));
}

/// The file that an append starts from: what was read, or an empty log where
/// nothing could be read.
pub fn starting_file(read: Option<BlockersFile>) -> (r: BlockersFile)
    ensures
        r@ == (match read {
            Some(file) => file@,
            None => (1u32, Seq::<BlockerView>::empty()),
        }),
{
    match read {
        Some(file) => file,
        None => {
            let r = BlockersFile { version: 1, blockers: Vec::new() };
            assert(outcomes(r.blockers@) =~= Seq::<BlockerView>::empty());
            r
        },
    }
}

/// The event records a blocker.
pub open spec fn records_blocker(e: Event, record: BlockerView) -> bool {
    match e {
        Event::Effect { event: EffectEvent::BlockerRecorded { record: held } } => held@ == record,
        _ => false,
    }
}

/// The effect that records a blocker.
pub fn blocker_effect(record: &BlockerRecord) -> (r: EffectEvent)
    ensures
        records_blocker(Event::Effect { event: r }, record@),
{
    EffectEvent::BlockerRecorded { record: record.clone() }
}

/// Appends a record to the log and drops the oldest beyond the cap. Gives the one
/// effect that is to be recorded with it.
pub fn append_blocker(file: &mut BlockersFile, record: BlockerRecord) -> (r: EffectEvent)
    ensures
        final(file)@ == (old(file)@.0, newest(old(file)@.1.push(record@))),
        records_blocker(Event::Effect { event: r }, record@),
{
    let ghost before = outcomes(file.blockers@);
    let effect = blocker_effect(&record);
    file.blockers.push(record);
    assert(outcomes(file.blockers@) =~= before.push(record@));
    keep_newest(file);
    effect
}

/// `after` differs from `before` in the one effect that records a blocker, to which the
/// log gave the number `seq`.
pub open spec fn blocker_logged<S>(
    before: CanonicalWriter<S>,
    after: CanonicalWriter<S>,
    record: BlockerView,
    seq: u64,
) -> bool {
    &&& after.logged().len() == before.logged().len() + 1
    &&& records_blocker(after.logged().last(), record)
    &&& after.only_logged(&before, after.logged().last(), seq)
}

/// What recording an effect answers where the log refuses it.
pub open spec fn append_refusal(reason: Seq<char>) -> Seq<char> {
    canonical_writer::refusal("tlog effect append failed"@, reason)
}

/// Records one effect with the record through the writer, to which the log answers
/// `appended`, and appends the record. Where the log refuses the effect, neither the
/// writer nor the file changes.
pub fn append_blocker_with_writer<S>(
    file: &mut BlockersFile,
    writer: &mut CanonicalWriter<S>,
    record: BlockerRecord,
    appended: Result<u64, String>,
) -> (r: Result<(), String>)
    ensures
        match appended {
            Ok(seq) => {
                &&& r is Ok
                &&& blocker_logged(*old(writer), *final(writer), record@, seq)
                &&& final(file)@ == (old(file)@.0, newest(old(file)@.1.push(record@)))
            },
            Err(reason) => {
                &&& canonical_writer::error_text(r) == Some(append_refusal(reason@))
                &&& *final(writer) == *old(writer)
                &&& final(file)@ == old(file)@
            },
        },
{
    match writer.try_record_effect(blocker_effect(&record), appended) {
        Ok(_) => {
            let _ = append_blocker(file, record);
            Ok(())
        },
        Err(e) => Err(e),
    }
}

/// The id of a record.
pub open spec fn blocker_id(role: Seq<char>, class: ErrorClass, ts: u64) -> Seq<char> {
    "blk-"@ + role + "-"@ + error_class::class_key(class) + "-"@ + text::dec(ts as nat)
}

fn build_id(role: &str, class: ErrorClass, ts: u64) -> (r: String)
    ensures
        r@ == blocker_id(role@, class, ts),
{
    let mut id = "blk-".to_owned();
    id.append(role);
    id.append("-");
    id.append(class.as_key());
    id.append("-");
    id.append(decimal(ts).as_str());
    id
}

/// The record of a blocker message whose class is known.
pub open spec fn message_record(
    role: Seq<char>,
    summary: Seq<char>,
    class: ErrorClass,
    task_id: Option<Seq<char>>,
    objective_id: Option<Seq<char>>,
    ts: u64,
) -> BlockerView {
    BlockerView {
        id: blocker_id(role, class, ts),
        error_class: class,
        actor: role,
        task_id,
        objective_id,
        summary,
        action_kind: "message"@,
        source: "blocker_message"@,
        ts_ms: ts,
    }
}

/// An optional record as a mathematical value.
pub open spec fn optional_record(o: Option<BlockerRecord>) -> Option<BlockerView> {
    match o {
        Some(b) => Some(b@),
        None => None,
    }
}

/// The record of a blocker message whose class is known.
pub fn build_message_record(
    role: &str,
    summary: &str,
    class: ErrorClass,
    task_id: Option<&str>,
    objective_id: Option<&str>,
    ts: u64,
) -> (r: BlockerRecord)
    ensures
        r@ == message_record(
            role@,
            summary@,
            class,
            text::optional_ref(task_id),
            text::optional_ref(objective_id),
            ts,
        ),
{
    BlockerRecord {
        id: build_id(role, class, ts),
        error_class: class,
        actor: role.to_owned(),
        task_id: own_optional(task_id),
        objective_id: own_optional(objective_id),
        summary: summary.to_owned(),
        action_kind: "message".to_owned(),
        source: "blocker_message".to_owned(),
        ts_ms: ts,
    }
}

/// The record of a failed action whose class is known. What has no class is
/// dropped.
pub open spec fn failure_record(
    role: Seq<char>,
    action_kind: Seq<char>,
    result_text: Seq<char>,
    class: ErrorClass,
    task_id: Option<Seq<char>>,
    ts: u64,
) -> Option<BlockerView> {
    if class == ErrorClass::Unknown {
        None
    } else {
        Some(
            BlockerView {
                id: blocker_id(role, class, ts),
                error_class: class,
                actor: role,
                task_id,
                objective_id: None,
                summary: text::first_line_of(result_text),
                action_kind,
                source: "action_result"@,
                ts_ms: ts,
            },
        )
    }
}

/// The record of a failed action whose class is known.
pub fn build_failure_record(
    role: &str,
    action_kind: &str,
    result_text: &str,
    class: ErrorClass,
    task_id: Option<&str>,
    ts: u64,
) -> (r: Option<BlockerRecord>)
    ensures
        optional_record(r) == failure_record(
            role@,
            action_kind@,
            result_text@,
            class,
            text::optional_ref(task_id),
            ts,
        ),
{
    if class == ErrorClass::Unknown {
        return None;
    }
    Some(
        BlockerRecord {
            id: build_id(role, class, ts),
            error_class: class,
            actor: role.to_owned(),
            task_id: own_optional(task_id),
            objective_id: None,
            summary: first_line(result_text),
            action_kind: action_kind.to_owned(),
            source: "action_result".to_owned(),
            ts_ms: ts,
        },
    )
}

/// The log after an optional record has been appended.
pub open spec fn appended(file: (u32, Seq<BlockerView>), record: Option<BlockerView>) -> (
    u32,
    Seq<BlockerView>,
) {
    match record {
        Some(b) => (file.0, newest(file.1.push(b))),
        None => file,
    }
}

/// The record of a blocker message, classified by its summary.
pub fn blocker_message(
    role: &str,
    summary: &str,
    task_id: Option<&str>,
    objective_id: Option<&str>,
    ts: u64,
) -> (r: BlockerRecord)
    ensures
        r@ == message_record(
            role@,
            summary@,
            error_class::blocker_text_class(text::lowercase(summary@)),
            text::optional_ref(task_id),
            text::optional_ref(objective_id),
            ts,
        ),
{
    let class = classify_blocker_summary(summary);
    build_message_record(role, summary, class, task_id, objective_id, ts)
}

/// The record of a failed action, classified by its kind and result.
pub fn action_failure(
    role: &str,
    action_kind: &str,
    result_text: &str,
    task_id: Option<&str>,
    ts: u64,
) -> (r: Option<BlockerRecord>)
    ensures
        optional_record(r) == failure_record(
            role@,
            action_kind@,
            result_text@,
            error_class::result_class(action_kind@, text::lowercase(result_text@), false),
            text::optional_ref(task_id),
            ts,
        ),
{
    let class = classify_result(action_kind, result_text, false);
    build_failure_record(role, action_kind, result_text, class, task_id, ts)
}

/// Records a blocker message in the log, whatever its class is. Gives the one effect
/// that is to be recorded with it.
pub fn record_blocker_message(
    file: &mut BlockersFile,
    role: &str,
    summary: &str,
    task_id: Option<&str>,
    objective_id: Option<&str>,
    ts: u64,
) -> (r: EffectEvent)
    ensures
        ({
            let record = message_record(
                role@,
                summary@,
                error_class::blocker_text_class(text::lowercase(summary@)),
                text::optional_ref(task_id),
                text::optional_ref(objective_id),
                ts,
            );
            &&& final(file)@ == appended(old(file)@, Some(record))
            &&& records_blocker(Event::Effect { event: r }, record)
        }),
{
    append_blocker(file, blocker_message(role, summary, task_id, objective_id, ts))
}

/// Records a blocker message through the writer and in the log, as
/// [`append_blocker_with_writer`] does.
pub fn record_blocker_message_with_writer<S>(
    file: &mut BlockersFile,
    writer: &mut CanonicalWriter<S>,
    role: &str,
    summary: &str,
    task_id: Option<&str>,
    objective_id: Option<&str>,
    ts: u64,
    appended_at: Result<u64, String>,
) -> (r: Result<(), String>)
    ensures
        ({
            let record = message_record(
                role@,
                summary@,
                error_class::blocker_text_class(text::lowercase(summary@)),
                text::optional_ref(task_id),
                text::optional_ref(objective_id),
                ts,
            );
            match appended_at {
                Ok(seq) => {
                    &&& r is Ok
                    &&& blocker_logged(*old(writer), *final(writer), record, seq)
                    &&& final(file)@ == appended(old(file)@, Some(record))
                },
                Err(reason) => {
                    &&& canonical_writer::error_text(r) == Some(append_refusal(reason@))
                    &&& *final(writer) == *old(writer)
                    &&& final(file)@ == old(file)@
                },
            }
        }),
{
    let record = blocker_message(role, summary, task_id, objective_id, ts);
    append_blocker_with_writer(file, writer, record, appended_at)
}

/// Records a failed action through the writer and in the log, as
/// [`append_blocker_with_writer`] does. What has no class is dropped, without an effect.
/// Says whether a record was appended.
pub fn record_action_failure_with_writer<S>(
    file: &mut BlockersFile,
    writer: &mut CanonicalWriter<S>,
    role: &str,
    action_kind: &str,
    result_text: &str,
    task_id: Option<&str>,
    ts: u64,
    appended_at: Result<u64, String>,
) -> (r: Result<bool, String>)
    ensures
        ({
            let record = failure_record(
                role@,
                action_kind@,
                result_text@,
                error_class::result_class(action_kind@, text::lowercase(result_text@), false),
                text::optional_ref(task_id),
                ts,
            );
            match (record, appended_at) {
                (None, _) => {
                    &&& r == Ok::<bool, String>(false)
                    &&& *final(writer) == *old(writer)
                    &&& final(file)@ == old(file)@
                },
                (Some(b), Ok(seq)) => {
                    &&& r == Ok::<bool, String>(true)
                    &&& blocker_logged(*old(writer), *final(writer), b, seq)
                    &&& final(file)@ == appended(old(file)@, record)
                },
                (Some(_), Err(reason)) => {
                    &&& r matches Err(e) && e@ == append_refusal(reason@)
                    &&& *final(writer) == *old(writer)
                    &&& final(file)@ == old(file)@
                },
            }
        }),
{
    match action_failure(role, action_kind, result_text, task_id, ts) {
        None => Ok(false),
        Some(record) => match append_blocker_with_writer(file, writer, record, appended_at) {
            Ok(_) => Ok(true),
            Err(e) => Err(e),
        },
    }
}

/// Records a failed action in the log. What has no class is dropped. Gives the one
/// effect that is to be recorded with it.
pub fn record_action_failure(
    file: &mut BlockersFile,
    role: &str,
    action_kind: &str,
    result_text: &str,
    task_id: Option<&str>,
    ts: u64,
) -> (r: Option<EffectEvent>)
    ensures
        ({
            let record = failure_record(
                role@,
                action_kind@,
                result_text@,
                error_class::result_class(action_kind@, text::lowercase(result_text@), false),
                text::optional_ref(task_id),
                ts,
            );
            &&& final(file)@ == appended(old(file)@, record)
            &&& match (record, r) {
                (Some(b), Some(effect)) => records_blocker(Event::Effect { event: effect }, b),
                (None, None) => true,
                _ => false,
            }
        }),
{
    match action_failure(role, action_kind, result_text, task_id, ts) {
        Some(record) => Some(append_blocker(file, record)),
        None => None,
    }
}

/// The records that a transition log holds, oldest first.
pub open spec fn recorded(rs: Seq<TlogRecord>) -> Seq<BlockerView>
    decreases rs.len(),
{
    if rs.len() == 0 {
        Seq::empty()
    } else {
        let before = recorded(rs.drop_last());
        match rs.last().event {
            Event::Effect { event: EffectEvent::BlockerRecorded { record } } => before.push(record@),
            _ => before,
        }
    }
}

/// The log as the transition log gives it back.
pub fn load_blockers_from_tlog(records: &Vec<TlogRecord>) -> (r: BlockersFile)
    ensures
        r@ == (1u32, newest(recorded(records@))),
{
    let mut file = BlockersFile { version: 1, blockers: Vec::new() };
    let mut i: usize = 0;
    assert(records@.take(0) =~= Seq::<TlogRecord>::empty());
    assert(outcomes(file.blockers@) =~= Seq::<BlockerView>::empty());
    while i < records.len()
        invariant
            i <= records.len(),
            file@ == (1u32, recorded(records@.take(i as int))),
        decreases records.len() - i,
    {
        let ghost before = outcomes(file.blockers@);
        proof {
            assert(records@.take(i + 1).drop_last() =~= records@.take(i as int));
            assert(records@.take(i + 1).last() == records@[i as int]);
        }
        match &records[i].event {
            Event::Effect { event } => match event {
                EffectEvent::BlockerRecorded { record } => {
                    let copy = record.clone();
                    file.blockers.push(copy);
                    assert(outcomes(file.blockers@) =~= before.push(record@));
                },
                _ => {},
            },
            _ => {},
        }
        i += 1;
    }
    assert(records@.take(i as int) =~= records@);
    keep_newest(&mut file);
    file
}

/// The log: what the file holds, or an empty one where it is absent or cannot be read.
/// [`load_blockers_from_tlog`] rebuilds it for those who ask for that.
pub fn load_blockers(read: Option<BlockersFile>) -> (r: BlockersFile)
    ensures
        r@ == (match read {
            Some(file) => file@,
            None => (0u32, Seq::<BlockerView>::empty()),
        }),
{
    match read {
        Some(file) => file,
        None => BlockersFile::default(),
    }
}

/// A record counts for an actor kind and a class.
pub open spec fn of_class(b: BlockerView, actor_kind: Seq<char>, class: ErrorClass) -> bool {
    text::has_prefix(b.actor, actor_kind) && b.error_class == class
}

/// The record is at most `window` milliseconds old. One from the future is new.
pub open spec fn recent(b: BlockerView, now: u64, window: u64) -> bool {
    now - b.ts_ms <= window
}

/// The records that count for an actor kind and a class.
pub open spec fn class_records(
    s: Seq<BlockerView>,
    actor_kind: Seq<char>,
    class: ErrorClass,
) -> Seq<BlockerView> {
    s.filter(|b: BlockerView| of_class(b, actor_kind, class))
}

/// The recent records that count for an actor kind and a class.
pub open spec fn recent_class_records(
    s: Seq<BlockerView>,
    actor_kind: Seq<char>,
    class: ErrorClass,
    now: u64,
    window: u64,
) -> Seq<BlockerView> {
    s.filter(|b: BlockerView| of_class(b, actor_kind, class) && recent(b, now, window))
}

/// How often an actor kind and a class appear in the log.
pub fn count_class(file: &BlockersFile, actor_kind: &str, class: &ErrorClass) -> (r: usize)
    ensures
        r == class_records(file@.1, actor_kind@, *class).len(),
{
    let ghost all = outcomes(file.blockers@);
    let mut count: usize = 0;
    let mut i: usize = 0;
    proof {
        reveal(Seq::filter);
        assert(all.take(0) =~= Seq::<BlockerView>::empty());
    }
    while i < file.blockers.len()
        invariant
            i <= file.blockers.len(),
            all == outcomes(file.blockers@),
            count <= i,
            count == class_records(all.take(i as int), actor_kind@, *class).len(),
        decreases file.blockers.len() - i,
    {
        let b = &file.blockers[i];
        proof {
            reveal(Seq::filter);
            assert(all.take(i + 1).drop_last() =~= all.take(i as int));
            assert(all.take(i + 1).last() == b@);
        }
        if starts_with(b.actor.as_str(), actor_kind) && b.error_class == *class {
            count += 1;
        }
        i += 1;
    }
    assert(all.take(i as int) =~= all);
    count
}

/// How often an actor kind and a class appear in the log within a recent time.
pub fn count_class_recent(
    file: &BlockersFile,
    actor_kind: &str,
    class: &ErrorClass,
    now_ms: u64,
    window_ms: u64,
) -> (r: usize)
    ensures
        r == recent_class_records(file@.1, actor_kind@, *class, now_ms, window_ms).len(),
{
    let ghost all = outcomes(file.blockers@);
    let mut count: usize = 0;
    let mut i: usize = 0;
    proof {
        reveal(Seq::filter);
        assert(all.take(0) =~= Seq::<BlockerView>::empty());
    }
    while i < file.blockers.len()
        invariant
            i <= file.blockers.len(),
            all == outcomes(file.blockers@),
            count <= i,
            count == recent_class_records(
                all.take(i as int),
                actor_kind@,
                *class,
                now_ms,
                window_ms,
            ).len(),
        decreases file.blockers.len() - i,
    {
        let b = &file.blockers[i];
        proof {
            reveal(Seq::filter);
            assert(all.take(i + 1).drop_last() =~= all.take(i as int));
            assert(all.take(i + 1).last() == b@);
        }
        if starts_with(b.actor.as_str(), actor_kind) && b.error_class == *class
            && now_ms.saturating_sub(b.ts_ms) <= window_ms {
            count += 1;
        }
        i += 1;
    }
    assert(all.take(i as int) =~= all);
    count
}

/// The log never holds more records than the cap, and what was appended last is
/// always kept.
pub proof fn law_newest_is_capped_and_keeps_the_last(s: Seq<BlockerView>, b: BlockerView)
    ensures
        newest(s.push(b)).len() <= MAX_BLOCKER_RECORDS,
        newest(s.push(b)).len() > 0,
        newest(s.push(b)).last() == b,
{
}

/// The log that appends have built record by record is the log that the
/// transition log gives back.
pub proof fn law_log_gives_back_what_was_appended(rs: Seq<TlogRecord>, record: BlockerRecord)
    requires
        rs.len() > 0,
        rs.last().event == (Event::Effect { event: EffectEvent::BlockerRecorded { record } }),
    ensures
        newest(recorded(rs)) == newest(newest(recorded(rs.drop_last())).push(record@)),
{
    let before = recorded(rs.drop_last());
    assert(newest(before.push(record@)) =~= newest(newest(before).push(record@)));
}

/// No recent count is above the whole count.
pub proof fn law_recent_count_is_at_most_the_count(
    s: Seq<BlockerView>,
    actor_kind: Seq<char>,
    class: ErrorClass,
    now: u64,
    window: u64,
)
    ensures
        recent_class_records(s, actor_kind, class, now, window).len() <= class_records(
            s,
            actor_kind,
            class,
        ).len(),
    decreases s.len(),
{
    reveal(Seq::filter);
    if s.len() > 0 {
        law_recent_count_is_at_most_the_count(s.drop_last(), actor_kind, class, now, window);
    }
}

} // verus!
