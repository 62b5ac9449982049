//! What the command line tools do: tickets, the supervisor, flags and predictions.

use crate::components;
use crate::flags;
use crate::json;
use crate::json::JsonView;
use crate::order;
use crate::order::Ranked;
use crate::route;
use crate::semantic::SymbolSummary;
use crate::step;
use crate::supervisor;
use crate::supervisor::{
    BinaryCandidate, BuildKind, ChildState, Decision, Observed, Outcome, Restart, Step,
};
use crate::text;
use crate::tickets;
use crate::tickets::{Listed, SizedSymbol, Ticket, TicketKind, TicketView};
use vstd::prelude::*;

verus! {

// ---------------------------------------------------------------------------
// Flags
// ---------------------------------------------------------------------------

/// The value of a flag stands right behind its first place; a flag that is not there,
/// or stands last, has none.
pub proof fn law_a_flag_has_the_value_behind_it(args: Seq<Seq<char>>, name: Seq<char>)
    ensures
        flags::flag_value(args, name) matches Some(v) ==> exists|i: int|
            0 <= i && i + 1 < args.len() && #[trigger] args[i] == name && args[i + 1] == v
                && forall|k: int| 0 <= k < i ==> #[trigger] args[k] != name,
        flags::flag_value(args, name) is None ==> forall|i: int|
            0 <= i < args.len() - 1 ==> #[trigger] args[i] != name,
    decreases args.len(),
{
    if args.len() >= 2 {
        if args[0] == name {
            assert(args[0int] == name && args[0int + 1] == args[1]);
        } else {
            let rest = args.drop_first();
            law_a_flag_has_the_value_behind_it(rest, name);
            match flags::flag_value(args, name) {
                Some(v) => {
                    let i = choose|i: int|
                        0 <= i && i + 1 < rest.len() && #[trigger] rest[i] == name && rest[i + 1]
                            == v && forall|k: int| 0 <= k < i ==> #[trigger] rest[k] != name;
                    assert(args[i + 1] == name && args[i + 1 + 1] == v);
                    assert forall|k: int| 0 <= k < i + 1 implies #[trigger] args[k] != name by {
                        if k > 0 {
                            assert(args[k] == rest[k - 1]);
                        }
                    }
                },
                None => {
                    assert forall|i: int| 0 <= i < args.len() - 1 implies #[trigger] args[i]
                        != name by {
                        if i > 0 {
                            assert(args[i] == rest[i - 1]);
                        }
                    }
                },
            }
        }
    }
}

/// A count is read from its flag, is the default without it, and is refused where it
/// is no number.
pub proof fn law_a_count_is_read_from_its_flag(
    args: Seq<Seq<char>>,
    name: Seq<char>,
    default: usize,
)
    ensures
        flags::flag_value(args, name) is None ==> flags::count_flag(args, name, default) == Some(
            default,
        ),
        flags::flag_value(args, name) matches Some(v) ==> match text::parsed(v) {
            Some(n) => n <= usize::MAX ==> flags::count_flag(args, name, default) == Some(
                n as usize,
            ),
            None => flags::count_flag(args, name, default) is None,
        },
        flags::flag_value(args, name) matches Some(v) ==> flags::flag_value_or(args, name, text::dec(0))
            == v,
{
}

// ---------------------------------------------------------------------------
// Tickets
// ---------------------------------------------------------------------------

/// The size that counts for a kind of ticket: the blocks for branches, the statements
/// for a split, nought where they are not known.
pub open spec fn counted_size(kind: TicketKind, s: SymbolSummary) -> usize {
    let n = if kind == TicketKind::Branch { s.mir_blocks } else { s.mir_stmts };
    if let Some(size) = n { size } else { 0 }
}

proof fn lemma_large(kind: TicketKind, ss: Seq<SymbolSummary>, min: usize, n: nat, x: SizedSymbol)
    requires
        n <= ss.len() <= usize::MAX,
    ensures
        tickets::large(kind, ss, min, n).contains(x) <==> x.index < n && ss[x.index as int].kind@
            == "fn"@ && x.size == counted_size(kind, ss[x.index as int]) && x.size >= min,
    decreases n,
{
    let all = tickets::large(kind, ss, min, n);
    if n > 0 {
        let was = tickets::large(kind, ss, min, (n - 1) as nat);
        lemma_large(kind, ss, min, (n - 1) as nat, x);
        let s = ss[n - 1];
        let y = SizedSymbol { size: tickets::size_of(kind, s), index: (n - 1) as usize };
        if all.contains(x) {
            let i = choose|i: int| 0 <= i < all.len() && all[i] == x;
            if i < was.len() {
                assert(was[i] == x);
            } else {
                assert(x == y);
            }
        }
        if was.contains(x) {
            let i = choose|i: int| 0 <= i < was.len() && was[i] == x;
            assert(all[i] == x);
        }
        if x.index == n - 1 && s.kind@ == "fn"@ && x.size == counted_size(kind, s) && x.size
            >= min {
            assert(x == y);
            assert(all[was.len() as int] == x);
        }
    }
}

/// The candidates of a kind are the functions of at least the size, and no larger one
/// stands behind a smaller one.
pub proof fn law_candidates_are_large_functions(
    kind: TicketKind,
    ss: Seq<SymbolSummary>,
    min: usize,
    x: SizedSymbol,
)
    requires
        ss.len() <= usize::MAX,
    ensures
        ({
            let found = tickets::candidates(kind, ss, min);
            &&& found.contains(x) <==> x.index < ss.len() && ss[x.index as int].kind@ == "fn"@
                && x.size == counted_size(kind, ss[x.index as int]) && x.size >= min
            &&& forall|i: int, j: int|
                0 <= i < j < found.len() ==> (#[trigger] found[i]).size >= (#[trigger] found[j]).size
        }),
{
    broadcast use vstd::seq_lib::group_to_multiset_ensures;

    let all = tickets::large(kind, ss, min, ss.len());
    let le = |a: SizedSymbol, b: SizedSymbol| <SizedSymbol as Ranked>::rank_le(a, b);
    order::lemma_stable_sorted(all, le);
    let found = tickets::candidates(kind, ss, min);
    lemma_large(kind, ss, min, ss.len(), x);
    assert(found.contains(x) <==> found.to_multiset().count(x) > 0);
    assert(all.contains(x) <==> all.to_multiset().count(x) > 0);
    assert forall|i: int, j: int| 0 <= i < j < found.len() implies (#[trigger] found[i]).size >= (
    #[trigger] found[j]).size by {
        assert(le(found[i], found[j]));
    }
}

/// A ticket on branches ranks before one on size, its score is the size that counts,
/// and it is open.
pub proof fn law_a_ticket_tells_its_size(name: Seq<char>, s: SymbolSummary)
    ensures
        ({
            let b = tickets::ticket(TicketKind::Branch, name, s);
            let r = tickets::ticket(TicketKind::Refactor, name, s);
            &&& b.priority_rank < r.priority_rank
            &&& b.score == counted_size(TicketKind::Branch, s) as i64
            &&& r.score == counted_size(TicketKind::Refactor, s) as i64
            &&& b.id == tickets::ticket_id("auto_branch_reduce"@, name, s.symbol@)
            &&& r.id == tickets::ticket_id("auto_refactor_split"@, name, s.symbol@)
        }),
{
}

/// At most as many tickets are selected as are asked for, all where nought is asked
/// for; a better priority comes first, then the larger score, then the id.
pub proof fn law_the_best_tickets_are_selected(ts: Seq<TicketView>, top: usize, i: int, j: int)
    requires
        0 <= i < j < tickets::selected(ts, top).len(),
    ensures
        ({
            let r = tickets::selected(ts, top);
            &&& top == 0 ==> r.len() == ts.len()
            &&& top > 0 ==> r.len() == if ts.len() <= top { ts.len() } else { top as nat }
            &&& r[i].priority_rank <= r[j].priority_rank
            &&& r[i].priority_rank == r[j].priority_rank ==> r[i].score >= r[j].score
            &&& r[i].priority_rank == r[j].priority_rank && r[i].score == r[j].score
                ==> text::text_le(r[i].id, r[j].id)
        }),
{
    let marked = ts.map_values(|t: TicketView| tickets::ranked_as_last(ts, t));
    let le = |a: TicketView, b: TicketView| <Ticket as Ranked>::rank_le(a, b);
    assert forall|a: TicketView, b: TicketView| #[trigger] le(a, b) || le(b, a) by {
        Ticket::rank_total(a, b);
    }
    assert forall|a: TicketView, b: TicketView, c: TicketView| #[trigger]
        le(a, b) && #[trigger] le(b, c) implies le(a, c) by {
        Ticket::rank_transitive(a, b, c);
    }
    order::lemma_stable_sorted(marked, le);
    let sorted = order::stable_sorted(marked, le);
    assert(tickets::selected(ts, top)[i] == sorted[i]);
    assert(tickets::selected(ts, top)[j] == sorted[j]);
    assert(le(sorted[i], sorted[j]));
}

/// An issue that is merged takes the place of the last one with its id, or comes last;
/// one without an id changes nothing.
pub proof fn law_a_merge_updates_or_adds(issues: Seq<JsonView>, new: Seq<JsonView>, n: JsonView)
    ensures
        ({
            let was = tickets::merged(issues, new);
            let now = tickets::merged(issues, new.push(n));
            &&& tickets::merged(issues, Seq::empty()).issues == issues
            &&& match json::text_field(n, "id"@) {
                None => now == was,
                Some(id) => match tickets::place_of(was.issues, id) {
                    Some(i) => now.issues == was.issues.update(i, n) && now.added == was.added
                        && now.updated == was.updated.push(id) && now.applied == was.applied.push(
                        n,
                    ),
                    None => now.issues == was.issues.push(n) && now.added == was.added.push(id)
                        && now.updated == was.updated && now.applied == was.applied.push(n),
                },
            }
        }),
{
    assert(new.push(n).drop_last() =~= new);
}

/// The place of an id is that of the last issue that has it.
pub proof fn law_a_place_is_the_last(issues: Seq<JsonView>, n: JsonView, id: Seq<char>)
    ensures
        tickets::place_of(Seq::empty(), id) is None,
        json::text_field(n, "id"@) == Some(id) ==> tickets::place_of(issues.push(n), id) == Some(
            issues.len() as int,
        ),
        json::text_field(n, "id"@) != Some(id) ==> tickets::place_of(issues.push(n), id)
            == tickets::place_of(issues, id),
{
    assert(issues.push(n).drop_last() =~= issues);
}

/// Pruning takes out exactly the issues that were generated here and were not
/// applied.
pub proof fn law_pruning_takes_out_stale_tickets(
    issues: Seq<JsonView>,
    applied: Seq<JsonView>,
    issue: JsonView,
)
    ensures
        ({
            let id = json::text_field(issue, "id"@);
            let ours = (id matches Some(t) && (text::has_prefix(t, "auto_branch_reduce_"@)
                || text::has_prefix(t, "auto_refactor_split_"@))) && json::text_field(
                issue,
                "discovered_by"@,
            ) == Some("tickets"@);
            let applied_now = exists|i: int|
                0 <= i < applied.len() && json::text_field(#[trigger] applied[i], "id"@) == id;
            tickets::pruned(issues, applied).contains(issue) <==> issues.contains(issue) && (!ours
                || applied_now)
        }),
{
    components::lemma_filter_contains(
        issues,
        |issue: JsonView| tickets::kept(issue, applied),
        issue,
    );
    let id = json::text_field(issue, "id"@);
    if tickets::names(applied, id) {
        let i = choose|i: int| 0 <= i < applied.len() && tickets::id_of(#[trigger] applied[i]) == id;
        assert(json::text_field(applied[i], "id"@) == id);
    }
    if exists|i: int| 0 <= i < applied.len() && json::text_field(#[trigger] applied[i], "id"@) == id {
        let i = choose|i: int|
            0 <= i < applied.len() && json::text_field(#[trigger] applied[i], "id"@) == id;
        assert(tickets::id_of(applied[i]) == id);
    }
}

/// Issues stand by priority: high, medium, low, then any other; one without a priority
/// counts as low; those of one priority stand by id.
pub proof fn law_issues_stand_by_priority(issues: Seq<JsonView>, i: int, j: int)
    requires
        0 <= i < j < issues.len(),
    ensures
        ({
            let r = tickets::by_priority(issues);
            &&& r.len() == issues.len()
            &&& r.to_multiset() == issues.to_multiset()
            &&& urgency(r[i]) <= urgency(r[j])
            &&& urgency(r[i]) == urgency(r[j]) ==> text::text_le(
                tickets::id_or_empty(r[i]),
                tickets::id_or_empty(r[j]),
            )
        }),
{
    let le = |a: JsonView, b: JsonView| <Listed as Ranked>::rank_le(a, b);
    assert forall|a: JsonView, b: JsonView| #[trigger] le(a, b) || le(b, a) by {
        Listed::rank_total(a, b);
    }
    assert forall|a: JsonView, b: JsonView, c: JsonView| #[trigger]
        le(a, b) && #[trigger] le(b, c) implies le(a, c) by {
        Listed::rank_transitive(a, b, c);
    }
    order::lemma_stable_sorted(issues, le);
    let r = tickets::by_priority(issues);
    assert(le(r[i], r[j]));
    lemma_words();
}

proof fn lemma_words()
    ensures
        "high"@ != "medium"@,
        "high"@ != "low"@,
        "medium"@ != "low"@,
{
    reveal_strlit("high");
    reveal_strlit("medium");
    reveal_strlit("low");
    assert("high"@.len() == 4 && "medium"@.len() == 6 && "low"@.len() == 3);
}

/// How far behind an issue stands.
pub open spec fn urgency(issue: JsonView) -> int {
    let p = text::lowercase(
        if let Some(p) = json::text_field(issue, "priority"@) {
            p
        } else {
            "low"@
        },
    );
    if p == "low"@ {
        2
    } else if p == "medium"@ {
        1
    } else if p == "high"@ {
        0
    } else {
        3
    }
}

/// Stale tickets are taken out only where that is asked for.
pub proof fn law_nothing_is_pruned_unasked(root: JsonView, ts: Seq<TicketView>, top: usize)
    ensures
        tickets::updated_issues(root, ts, top, false).to_multiset() == tickets::merged(
            tickets::issues_in(root),
            tickets::issue_objects(tickets::selected(ts, top)),
        ).issues.to_multiset(),
        ({
            let m = tickets::merged(
                tickets::issues_in(root),
                tickets::issue_objects(tickets::selected(ts, top)),
            );
            tickets::updated_issues(root, ts, top, true).to_multiset() == tickets::pruned(
                m.issues,
                m.applied,
            ).to_multiset()
        }),
{
    let m = tickets::merged(
        tickets::issues_in(root),
        tickets::issue_objects(tickets::selected(ts, top)),
    );
    let le = |a: JsonView, b: JsonView| <Listed as Ranked>::rank_le(a, b);
    assert forall|a: JsonView, b: JsonView| #[trigger] le(a, b) || le(b, a) by {
        Listed::rank_total(a, b);
    }
    assert forall|a: JsonView, b: JsonView, c: JsonView| #[trigger]
        le(a, b) && #[trigger] le(b, c) implies le(a, c) by {
        Listed::rank_transitive(a, b, c);
    }
    order::lemma_stable_sorted(m.issues, le);
    order::lemma_stable_sorted(tickets::pruned(m.issues, m.applied), le);
}

// ---------------------------------------------------------------------------
// The supervisor
// ---------------------------------------------------------------------------

/// Before a double dash the supervisor takes its own flags, and hands on all else.
pub proof fn law_own_flags_are_taken(args: Seq<Seq<char>>, a: Seq<char>)
    ensures
        ({
            let more = supervisor::sorted_out(args);
            let all = supervisor::sorted_out(seq![a] + args);
            &&& a == "--release"@ ==> all.prefer_release && all.no_watch == more.no_watch
                && all.rest == more.rest
            &&& a == "--no-watch"@ ==> all.no_watch && all.prefer_release == more.prefer_release
                && all.rest == more.rest
            &&& a != "--"@ && a != "--release"@ && a != "--no-watch"@ ==> all.rest == seq![a]
                + more.rest && all.prefer_release == more.prefer_release && all.no_watch
                == more.no_watch
            &&& supervisor::sorted_out(Seq::empty()).rest.len() == 0
            &&& !supervisor::sorted_out(Seq::empty()).prefer_release
            &&& !supervisor::sorted_out(Seq::empty()).no_watch
        }),
{
    reveal_strlit("--");
    reveal_strlit("--release");
    reveal_strlit("--no-watch");
    assert("--"@.len() == 2 && "--release"@.len() == 9 && "--no-watch"@.len() == 10);
    assert((seq![a] + args).drop_first() =~= args);
}

/// Of two builds the preferred one is started; of one, that one; of none, none.
pub proof fn law_the_preferred_build_is_started(
    release: Option<i128>,
    debug: Option<i128>,
    prefer_release: bool,
)
    ensures
        ({
            let r = supervisor::binary_to_start(release, debug, prefer_release);
            &&& r is None <==> release is None && debug is None
            &&& r matches Some(c) ==> {
                &&& c.kind == BuildKind::Release ==> release == Some(c.mtime) && (prefer_release
                    || debug is None)
                &&& c.kind == BuildKind::Debug ==> debug == Some(c.mtime) && (!prefer_release
                    || release is None)
            }
        }),
{
}

/// An update that is seen is a build that changed, the release build where both did.
pub proof fn law_an_update_is_a_build_that_changed(
    release: Option<i128>,
    debug: Option<i128>,
    last: i128,
)
    ensures
        release matches Some(r) ==> r > last ==> supervisor::updated_binary(release, debug, last)
            == Some(BinaryCandidate { kind: BuildKind::Release, mtime: r }),
        supervisor::updated_binary(release, debug, last) matches Some(c) ==> {
            &&& c.kind == BuildKind::Release ==> release == Some(c.mtime)
            &&& c.kind == BuildKind::Debug ==> debug == Some(c.mtime)
        },
{
}

/// The pending update is the newer one of what was pending and what was seen.
pub proof fn law_the_newer_update_is_pending(
    pending: Option<BinaryCandidate>,
    updated: Option<BinaryCandidate>,
)
    ensures
        ({
            let r = supervisor::pending_after(pending, updated);
            &&& r == pending || r == updated
            &&& pending matches Some(p) ==> r matches Some(c) && c.mtime >= p.mtime
            &&& updated matches Some(u) ==> r matches Some(c) && c.mtime >= u.mtime
            &&& pending == updated ==> r == pending
        }),
{
}

/// The supervisor stops when it is told to, finishes with a child that ended well,
/// and restarts a child that failed, in this order.
pub proof fn law_the_child_decides_first(
    pending: Option<BinaryCandidate>,
    seen: Observed,
    started_at: i128,
    no_watch: bool,
)
    ensures
        ({
            let d = supervisor::decision(pending, seen, started_at, no_watch);
            &&& d == Decision::Stop <==> seen.shutdown
            &&& d == Decision::Finish <==> !seen.shutdown && seen.child
                == ChildState::ExitedCleanly
            &&& d == Decision::Restart(Restart::Failure) <==> !seen.shutdown && seen.child
                == ChildState::Failed
        }),
{
}

/// A running child is restarted for an update alone, and only where builds are
/// watched: at once where it is no orchestrator, and else where its idle marker is no
/// older than the child and the update.
pub proof fn law_an_update_restarts_the_idle(
    pending: Option<BinaryCandidate>,
    seen: Observed,
    started_at: i128,
    no_watch: bool,
)
    requires
        !seen.shutdown,
        seen.child == ChildState::Running,
    ensures
        ({
            let d = supervisor::decision(pending, seen, started_at, no_watch);
            let orchestrates = seen.mode matches Some(m) && m@ == "orchestrate"@;
            let update = supervisor::pending_after(pending, seen.updated);
            &&& no_watch || update is None ==> d == Decision::GoOn { recorded: false, stale: false }
            &&& !no_watch ==> (update matches Some(u) ==> {
                let idle = seen.idle_mtime matches Some(t) && t >= started_at && t >= u.mtime;
                &&& !orchestrates ==> d == Decision::Restart(Restart::SingleRole)
                &&& orchestrates && idle ==> d == Decision::Restart(Restart::Idle)
                &&& orchestrates && !idle ==> d == Decision::GoOn {
                    recorded: update != pending,
                    stale: seen.idle_exists,
                }
            })
        }),
{
}

/// A checkpoint goes on from build to push: a good build is added, what was added is
/// compared, a difference is committed and a commit is pushed; all else ends it.
pub proof fn law_a_checkpoint_goes_on_while_it_succeeds(o: Outcome)
    ensures
        supervisor::next_step(Step::Build, Outcome::Success) == Step::Add,
        o !is Success ==> supervisor::next_step(Step::Build, o) == Step::Done,
        o !is Error ==> supervisor::next_step(Step::Add, o) == Step::Diff,
        o is Error ==> supervisor::next_step(Step::Add, o) == Step::Done,
        supervisor::next_step(Step::Diff, Outcome::NonZero) == Step::Commit,
        o !is NonZero ==> supervisor::next_step(Step::Diff, o) == Step::Done,
        supervisor::next_step(Step::Commit, Outcome::Success) == Step::Push,
        o !is Success ==> supervisor::next_step(Step::Commit, o) == Step::Done,
        supervisor::next_step(Step::Push, o) == Step::Done,
        supervisor::next_step(Step::Done, o) == Step::Done,
{
}

/// Each step of a checkpoint runs its own command.
pub proof fn law_each_step_runs_its_command(reason: Seq<char>)
    ensures
        supervisor::command(Step::Build, reason) == seq!["cargo"@, "build"@, "--workspace"@],
        supervisor::command(Step::Add, reason) == seq!["git"@, "add"@, "-A"@],
        supervisor::command(Step::Diff, reason) == seq![
            "git"@,
            "diff"@,
            "--cached"@,
            "--quiet"@,
        ],
        supervisor::command(Step::Commit, reason).len() == 4,
        supervisor::command(Step::Commit, reason)[1] == "commit"@,
        supervisor::command(Step::Push, reason) == seq!["git"@, "push"@],
        supervisor::command(Step::Done, reason).len() == 0,
{
}

// ---------------------------------------------------------------------------
// Predictions and messages
// ---------------------------------------------------------------------------

/// After a patch or a rename comes a test; after a command or a file that was read
/// comes a message; after a file was written it is read; after any other action
/// nothing is foretold.
pub proof fn law_what_follows_an_action(action: JsonView)
    ensures
        ({
            let kind = if let Some(k) = json::text_field(action, "action"@) { k } else { ""@ };
            let r = step::predicted_by_kind(action);
            let tested = kind == "apply_patch"@ || kind == "rename_symbol"@;
            let told = kind == "run_command"@ || kind == "read_file"@;
            let read = kind == "symbols_index"@ || kind == "symbols_rename_candidates"@ || kind
                == "symbols_prepare_rename"@;
            &&& tested ==> r.len() == 1 && first_text(r[0]) == Some(("action"@, "cargo_test"@))
            &&& told && !tested ==> r.len() == 1 && first_text(r[0]) == Some(
                ("action"@, "message"@),
            )
            &&& read && !told && !tested ==> r.len() == 1 && first_text(r[0]) == Some(
                ("action"@, "read_file"@),
            )
            &&& !tested && !told && !read ==> r.len() == 0
        }),
{
}

/// The first member of an object, where it is a text.
pub open spec fn first_text(v: JsonView) -> Option<(Seq<char>, Seq<char>)> {
    match v {
        JsonView::Object(ms) => if ms.len() > 0 {
            match ms[0].1 {
                JsonView::Text(t) => Some((ms[0].0, t)),
                _ => None,
            }
        } else {
            None
        },
        _ => None,
    }
}

/// The action of an input is the object that it wraps, or the input itself.
pub proof fn law_an_input_wraps_its_action(input: JsonView)
    ensures
        json::field(input, "action"@) matches Some(v) && v is Object ==> Some(
            step::input_action(input),
        ) == json::field(input, "action"@),
        !(json::field(input, "action"@) matches Some(v) && v is Object) ==> step::input_action(
            input,
        ) == input,
{
}

/// A flag decides where it is given.
pub proof fn law_a_flag_routes_before_the_role(args: Seq<Seq<char>>, role: Seq<char>)
    ensures
        flags::flag_value(args, "--to"@) matches Some(t) ==> route::route_fields(args, role).to_role
            == t,
        flags::flag_value(args, "--type"@) matches Some(t) ==> route::route_fields(
            args,
            role,
        ).msg_type == t,
        flags::flag_value(args, "--status"@) matches Some(t) ==> route::route_fields(
            args,
            role,
        ).status == t,
{
}

/// The summary of an input is its own text, else the first line of its output, and
/// never empty.
pub proof fn law_a_summary_is_never_empty(input: JsonView)
    ensures
        route::summary_of(input).len() > 0,
        json::text_field(input, "summary"@) matches Some(s) && s.len() > 0 ==> json::text_field(
            input,
            "summary"@,
        ) == Some(route::summary_of(input)),
        json::text_field(input, "summary"@) is None && json::text_field(input, "output"@) is None
            ==> route::summary_of(input) == "pipeline message"@,
{
    reveal_strlit("pipeline message");
    reveal_strlit("");
    assert("pipeline message"@.len() == 16);
}

/// An input that brings a payload keeps it.
pub proof fn law_a_payload_is_kept(input: JsonView)
    ensures
        json::field(input, "payload"@) matches Some(p) && p is Object ==> Some(
            route::payload_for(input),
        ) == json::field(input, "payload"@),
{
}

} // verus!
