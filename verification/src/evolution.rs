//! The count of successful builds, and what is known of the last one.

use crate::canonical_writer;
use crate::canonical_writer::CanonicalWriter;
use crate::text;
use crate::text::{copy_optional, is_blank, join_path, parse_u64, trim};
use vstd::prelude::*;
use vstd::string::*;

verus! {

/// What is kept of the evolution between runs.
#[derive(Debug)]
pub struct EvolutionSnapshot {
    pub evolution: u64,
    pub git_commit: Option<String>,
    pub git_commit_count: Option<u64>,
    pub last_build_ts_ms: Option<u64>,
    pub last_build_command: Option<String>,
}

impl Default for EvolutionSnapshot {
    fn default() -> (r: Self)
        ensures
            r == (EvolutionSnapshot {
                evolution: 0,
                git_commit: None,
                git_commit_count: None,
                last_build_ts_ms: None,
                last_build_command: None,
            }),
    {
        EvolutionSnapshot {
            evolution: 0,
            git_commit: None,
            git_commit_count: None,
            last_build_ts_ms: None,
            last_build_command: None,
        }
    }
}

/// One advance of the evolution.
#[derive(Debug)]
pub struct EvolutionAdvance {
    pub evolution: u64,
    pub command: String,
    pub git_commit: Option<String>,
    pub git_commit_count: Option<u64>,
}

/// Where the snapshot of a state directory is kept.
pub fn snapshot_path_for_state_dir(state_dir: &str) -> (r: String)
    ensures
        r@ == text::below(state_dir@, "evolution.json"@),
{
    join_path(state_dir, "evolution.json")
}

/// The evolution of the snapshot beside the log, zero where there is none.
pub fn current_evolution_for_tlog(snapshot_beside_log: Option<&EvolutionSnapshot>) -> (r: u64)
    ensures
        r == (match snapshot_beside_log {
            Some(s) => s.evolution,
            None => 0,
        }),
{
    match snapshot_beside_log {
        Some(s) => s.evolution,
        None => 0,
    }
}

/// What the version control printed, without the white space around it; nothing
/// where there was no other.
pub open spec fn printed(stdout: Option<Seq<char>>) -> Option<Seq<char>> {
    match stdout {
        Some(s) => if text::blank(s) {
            None
        } else {
            Some(text::trimmed(s))
        },
        None => None,
    }
}

/// What the version control printed, without the white space around it.
pub fn printed_text(stdout: Option<&str>) -> (r: Option<String>)
    ensures
        text::optional(r) == printed(text::optional_ref(stdout)),
{
    match stdout {
        Some(s) => if is_blank(s) {
            None
        } else {
            Some(trim(s))
        },
        None => None,
    }
}

/// The evolution after one more build. It stops at the largest number.
pub open spec fn next_evolution(evolution: u64) -> u64 {
    if evolution == u64::MAX {
        u64::MAX
    } else {
        (evolution + 1) as u64
    }
}

/// The number in an optional text.
pub open spec fn optional_number(s: Option<Seq<char>>) -> Option<u64> {
    match s {
        Some(t) => text::parsed(t),
        None => None,
    }
}

/// Advances the snapshot for a successful build. `head` and `count` are what the
/// version control printed for the current commit and the count of commits.
pub fn advance_for_successful_build(
    snapshot: &mut EvolutionSnapshot,
    command: &str,
    now_ms: u64,
    head: Option<&str>,
    count: Option<&str>,
) -> (r: EvolutionAdvance)
    ensures
        r.evolution == next_evolution(old(snapshot).evolution),
        r.command@ == command@,
        text::optional(r.git_commit) == printed(text::optional_ref(head)),
        r.git_commit_count == optional_number(printed(text::optional_ref(count))),
        final(snapshot).evolution == r.evolution,
        text::optional(final(snapshot).git_commit) == text::optional(r.git_commit),
        final(snapshot).git_commit_count == r.git_commit_count,
        final(snapshot).last_build_ts_ms == Some(now_ms),
        text::optional(final(snapshot).last_build_command) == Some(command@),
{
    snapshot.evolution = snapshot.evolution.saturating_add(1);
    snapshot.last_build_ts_ms = Some(now_ms);
    snapshot.last_build_command = Some(command.to_owned());
    snapshot.git_commit = printed_text(head);
    snapshot.git_commit_count = match printed_text(count) {
        Some(t) => parse_u64(t.as_str()),
        None => None,
    };
    EvolutionAdvance {
        evolution: snapshot.evolution,
        command: command.to_owned(),
        git_commit: copy_optional(&snapshot.git_commit),
        git_commit_count: snapshot.git_commit_count,
    }
}

/// Records an advance in the log. `appended` is what the log answered.
pub fn append_build_event_to_tlog<S>(
    writer: &mut CanonicalWriter<S>,
    advance: &EvolutionAdvance,
    appended: Result<u64, String>,
) -> (r: Result<(), String>)
    ensures
        final(writer).stamp() == advance.evolution,
        final(writer).current() == old(writer).current(),
        final(writer).place() == old(writer).place(),
        match appended {
            Ok(seq) => {
                &&& r is Ok
                &&& final(writer).seq() == seq
                &&& final(writer).logged().len() == old(writer).logged().len() + 1
                &&& canonical_writer::records_advance(final(writer).logged().last(), *advance)
                &&& final(writer).logged().drop_last() == old(writer).logged()
            },
            Err(reason) => {
                &&& canonical_writer::error_text(r) == Some(
                    canonical_writer::refusal("tlog effect append failed"@, reason@),
                )
                &&& final(writer).seq() == old(writer).seq()
                &&& final(writer).logged() == old(writer).logged()
            },
        },
{
    writer.try_record_evolution_advance(advance, appended)
}

/// The evolution before the log is asked: the advance of the snapshot, which has
/// to be saved first. Where saving failed nothing is recorded and the error is
/// handed on; else the advance is recorded and handed back.
pub fn record_successful_build<S>(
    writer: &mut CanonicalWriter<S>,
    advance: EvolutionAdvance,
    saved: Result<(), String>,
    appended: Result<u64, String>,
) -> (r: Result<EvolutionAdvance, String>)
    ensures
        final(writer).current() == old(writer).current(),
        final(writer).place() == old(writer).place(),
        match (saved, appended) {
            (Err(e), _) => {
                &&& r == Err::<EvolutionAdvance, String>(e)
                &&& *final(writer) == *old(writer)
            },
            (Ok(_), Err(reason)) => {
                &&& r is Err
                &&& r->Err_0@ == canonical_writer::refusal("tlog effect append failed"@, reason@)
                &&& final(writer).seq() == old(writer).seq()
                &&& final(writer).logged() == old(writer).logged()
                &&& final(writer).stamp() == advance.evolution
            },
            (Ok(_), Ok(seq)) => {
                &&& r == Ok::<EvolutionAdvance, String>(advance)
                &&& final(writer).seq() == seq
                &&& final(writer).stamp() == advance.evolution
                &&& final(writer).logged().len() == old(writer).logged().len() + 1
                &&& canonical_writer::records_advance(final(writer).logged().last(), advance)
                &&& final(writer).logged().drop_last() == old(writer).logged()
            },
        },
{
    match saved {
        Err(e) => Err(e),
        Ok(_) => match append_build_event_to_tlog(writer, &advance, appended) {
            Ok(_) => Ok(advance),
            Err(e) => Err(e),
        },
    }
}

/// The evolution never goes back, and moves at every build until it reaches the
/// largest number.
pub proof fn law_evolution_advances(evolution: u64)
    ensures
        next_evolution(evolution) >= evolution,
        evolution < u64::MAX ==> next_evolution(evolution) == evolution + 1,
{
}

} // verus!
