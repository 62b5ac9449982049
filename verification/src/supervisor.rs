//! When the supervised program is restarted, from which binary, and what is done
//! before.

use crate::flags;
use crate::flags::take_flag_value_or;
use crate::text;
use crate::text::{and_text, empty_list, join_path, same};
use vstd::prelude::*;
use vstd::string::*;

verus! {

// ---------------------------------------------------------------------------
// Arguments
// ---------------------------------------------------------------------------

/// What the supervisor was asked for, and what is handed on to the program.
#[derive(Debug)]
pub struct SupervisorArgs {
    pub prefer_release: bool,
    pub no_watch: bool,
    pub rest: Vec<String>,
}

/// Arguments as texts.
pub struct SupervisorArgsView {
    pub prefer_release: bool,
    pub no_watch: bool,
    pub rest: Seq<Seq<char>>,
}

impl View for SupervisorArgs {
    type V = SupervisorArgsView;

    open spec fn view(&self) -> SupervisorArgsView {
        SupervisorArgsView {
            prefer_release: self.prefer_release,
            no_watch: self.no_watch,
            rest: text::texts(self.rest@),
        }
    }
}

/// The arguments without the supervisor's own, which end at a double dash.
pub open spec fn sorted_out(args: Seq<Seq<char>>) -> SupervisorArgsView
    decreases args.len(),
{
    if args.len() == 0 {
        SupervisorArgsView { prefer_release: false, no_watch: false, rest: Seq::empty() }
    } else if args[0] == "--"@ {
        SupervisorArgsView { prefer_release: false, no_watch: false, rest: args.drop_first() }
    } else {
        let more = sorted_out(args.drop_first());
        if args[0] == "--release"@ {
            SupervisorArgsView { prefer_release: true, ..more }
        } else if args[0] == "--no-watch"@ {
            SupervisorArgsView { no_watch: true, ..more }
        } else {
            SupervisorArgsView { rest: seq![args[0]] + more.rest, ..more }
        }
    }
}

/// Sorts out the supervisor's own arguments.
pub fn filter_args(args: &Vec<String>) -> (r: SupervisorArgs)
    ensures
        r@ == sorted_out(text::texts(args@)),
{
    let ghost all = text::texts(args@);
    let mut prefer_release = false;
    let mut no_watch = false;
    let mut rest: Vec<String> = Vec::new();
    let mut i: usize = 0;
    let mut open = true;
    proof {
        assert(all.skip(0) =~= all);
        assert(text::texts(rest@) + sorted_out(all).rest =~= sorted_out(all).rest);
    }
    while i < args.len()
        invariant
            i <= args@.len(),
            all == text::texts(args@),
            open ==> sorted_out(all) == (SupervisorArgsView {
                prefer_release: prefer_release || sorted_out(all.skip(i as int)).prefer_release,
                no_watch: no_watch || sorted_out(all.skip(i as int)).no_watch,
                rest: text::texts(rest@) + sorted_out(all.skip(i as int)).rest,
            }),
            !open ==> sorted_out(all) == (SupervisorArgsView {
                prefer_release,
                no_watch,
                rest: text::texts(rest@) + all.skip(i as int),
            }),
        decreases args@.len() - i,
    {
        let arg = args[i].as_str();
        proof {
            assert(all.skip(i as int).drop_first() =~= all.skip(i + 1));
            assert(all.skip(i as int)[0] == arg@);
        }
        if open && same(arg, "--") {
            open = false;
        } else if open && same(arg, "--release") {
            prefer_release = true;
        } else if open && same(arg, "--no-watch") {
            no_watch = true;
        } else {
            let ghost before = text::texts(rest@);
            let ghost tail = if open {
                sorted_out(all.skip(i + 1)).rest
            } else {
                all.skip(i + 1)
            };
            rest.push(arg.to_owned());
            proof {
                assert(text::texts(rest@) =~= before.push(arg@));
                assert(before + (seq![arg@] + tail) =~= text::texts(rest@) + tail);
                assert(all.skip(i as int) =~= seq![arg@] + all.skip(i + 1));
            }
        }
        i += 1;
    }
    proof {
        assert(all.skip(i as int) =~= Seq::<Seq<char>>::empty());
        assert(text::texts(rest@) + Seq::<Seq<char>>::empty() =~= text::texts(rest@));
    }
    SupervisorArgs { prefer_release, no_watch, rest }
}

/// What stands behind a double dash is handed on as it is.
pub proof fn law_what_follows_the_dashes_is_handed_on(args: Seq<Seq<char>>)
    ensures
        sorted_out(seq!["--"@] + args) == (SupervisorArgsView {
            prefer_release: false,
            no_watch: false,
            rest: args,
        }),
{
    assert((seq!["--"@] + args).drop_first() =~= args);
}

/// The directory of the state: the one that a flag gives, else the usual one.
pub open spec fn state_dir(args: Seq<Seq<char>>) -> Seq<char> {
    flags::flag_value_or(
        args,
        "--state-dir"@,
        "/workspace/ai_sandbox/canon-mini-agent/agent_state"@,
    )
}

/// The directory of the state.
pub fn agent_state_dir_from_args(args: &Vec<String>) -> (r: String)
    ensures
        r@ == state_dir(text::texts(args@)),
{
    take_flag_value_or(
        args,
        "--state-dir",
        "/workspace/ai_sandbox/canon-mini-agent/agent_state",
    )
}

/// The file that marks an idle cycle.
pub fn cycle_idle_marker_path(args: &Vec<String>) -> (r: String)
    ensures
        r@ == text::below(state_dir(text::texts(args@)), "orchestrator_cycle_idle.flag"@),
{
    join_path(agent_state_dir_from_args(args).as_str(), "orchestrator_cycle_idle.flag")
}

/// The file that holds the mode of the orchestrator.
pub fn orchestrator_mode_flag_path(args: &Vec<String>) -> (r: String)
    ensures
        r@ == text::below(state_dir(text::texts(args@)), "orchestrator_mode.flag"@),
{
    join_path(agent_state_dir_from_args(args).as_str(), "orchestrator_mode.flag")
}

// ---------------------------------------------------------------------------
// Binaries
// ---------------------------------------------------------------------------

/// How a binary was built.
#[derive(Debug, Clone, Copy, PartialEq, Eq, Structural)]
pub enum BuildKind {
    Debug,
    Release,
}

/// A binary of the program: how it was built and when it changed, in nanoseconds.
#[derive(Debug, Clone, Copy, PartialEq, Eq, Structural)]
pub struct BinaryCandidate {
    pub kind: BuildKind,
    pub mtime: i128,
}

/// Where a binary lies below the root.
pub open spec fn binary_at(root: Seq<char>, kind: BuildKind) -> Seq<char> {
    text::below(
        root,
        match kind {
            BuildKind::Debug => "target/debug/canon-mini-agent"@,
            BuildKind::Release => "target/release/canon-mini-agent"@,
        },
    )
}

/// Where a binary lies below the root.
pub fn binary_path(root: &str, kind: BuildKind) -> (r: String)
    ensures
        r@ == binary_at(root@, kind),
{
    match kind {
        BuildKind::Debug => join_path(root, "target/debug/canon-mini-agent"),
        BuildKind::Release => join_path(root, "target/release/canon-mini-agent"),
    }
}

/// The binary to start: of the preferred build where there is one. `release` and
/// `debug` are when those changed that exist.
pub open spec fn binary_to_start(
    release: Option<i128>,
    debug: Option<i128>,
    prefer_release: bool,
) -> Option<BinaryCandidate> {
    match (release, debug) {
        (Some(r), Some(d)) => if prefer_release {
            Some(BinaryCandidate { kind: BuildKind::Release, mtime: r })
        } else {
            Some(BinaryCandidate { kind: BuildKind::Debug, mtime: d })
        },
        (Some(r), None) => Some(BinaryCandidate { kind: BuildKind::Release, mtime: r }),
        (None, Some(d)) => Some(BinaryCandidate { kind: BuildKind::Debug, mtime: d }),
        (None, None) => None,
    }
}

/// The binary to start.
pub fn newest_candidate(release: Option<i128>, debug: Option<i128>, prefer_release: bool) -> (r:
    Result<BinaryCandidate, String>)
    ensures
        match binary_to_start(release, debug, prefer_release) {
            Some(c) => r == Ok::<BinaryCandidate, String>(c),
            None => r matches Err(e) && e@
                == "canon-mini-agent binary not found in target/debug/ or target/release/"@,
        },
{
    match (release, debug) {
        (Some(r), Some(d)) => if prefer_release {
            Ok(BinaryCandidate { kind: BuildKind::Release, mtime: r })
        } else {
            Ok(BinaryCandidate { kind: BuildKind::Debug, mtime: d })
        },
        (Some(r), None) => Ok(BinaryCandidate { kind: BuildKind::Release, mtime: r }),
        (None, Some(d)) => Ok(BinaryCandidate { kind: BuildKind::Debug, mtime: d }),
        (None, None) => Err(
            "canon-mini-agent binary not found in target/debug/ or target/release/".to_owned(),
        ),
    }
}

/// The binary that changed since the last one was started. Where both did, it is the
/// release build.
pub open spec fn updated_binary(
    release: Option<i128>,
    debug: Option<i128>,
    last: i128,
) -> Option<BinaryCandidate> {
    if release matches Some(r) && r > last {
        Some(BinaryCandidate { kind: BuildKind::Release, mtime: release->0 })
    } else if debug matches Some(d) && d > last {
        Some(BinaryCandidate { kind: BuildKind::Debug, mtime: debug->0 })
    } else {
        None
    }
}

/// The binary that changed since the last one was started.
pub fn has_updated(release: Option<i128>, debug: Option<i128>, last: i128) -> (r: Option<
    BinaryCandidate,
>)
    ensures
        r == updated_binary(release, debug, last),
{
    match release {
        Some(r) => {
            if r > last {
                return Some(BinaryCandidate { kind: BuildKind::Release, mtime: r });
            }
        },
        None => {},
    }
    match debug {
        Some(d) => {
            if d > last {
                return Some(BinaryCandidate { kind: BuildKind::Debug, mtime: d });
            }
        },
        None => {},
    }
    None
}

/// An update is newer than what runs.
pub proof fn law_an_update_is_newer(release: Option<i128>, debug: Option<i128>, last: i128)
    ensures
        updated_binary(release, debug, last) matches Some(c) ==> c.mtime > last,
        updated_binary(release, debug, last) is None ==> (release matches Some(r) ==> r <= last)
            && (debug matches Some(d) ==> d <= last),
{
}

// ---------------------------------------------------------------------------
// Restarts
// ---------------------------------------------------------------------------

/// How the child fares.
#[derive(Debug, Clone, Copy, PartialEq, Eq, Structural)]
pub enum ChildState {
    Running,
    ExitedCleanly,
    Failed,
}

/// What the supervisor sees each second.
#[derive(Debug)]
pub struct Observed {
    pub shutdown: bool,
    pub child: ChildState,
    pub updated: Option<BinaryCandidate>,
    /// The mode of the orchestrator, trimmed, where its file can be read.
    pub mode: Option<String>,
    /// When the idle marker changed, where that is known.
    pub idle_mtime: Option<i128>,
    pub idle_exists: bool,
}

/// Why the child is restarted.
#[derive(Debug, Clone, Copy, PartialEq, Eq, Structural)]
pub enum Restart {
    Failure,
    SingleRole,
    Idle,
}

/// What the supervisor does next.
#[derive(Debug, Clone, Copy, PartialEq, Eq, Structural)]
pub enum Decision {
    Stop,
    Finish,
    Restart(Restart),
    /// Goes on. `recorded`: an update was noted. `stale`: the idle marker is too old.
    GoOn { recorded: bool, stale: bool },
}

/// The pending update after one more look: the newer of the two.
pub open spec fn pending_after(
    pending: Option<BinaryCandidate>,
    updated: Option<BinaryCandidate>,
) -> Option<BinaryCandidate> {
    match (pending, updated) {
        (Some(p), Some(u)) => if p.mtime < u.mtime {
            updated
        } else {
            pending
        },
        (None, _) => updated,
        (_, None) => pending,
    }
}

/// What the supervisor does next. An update waits until an orchestrator is idle: its
/// marker has to be younger than the child and no older than the update.
pub open spec fn decision(
    pending: Option<BinaryCandidate>,
    seen: Observed,
    started_at: i128,
    no_watch: bool,
) -> Decision {
    let after = pending_after(pending, seen.updated);
    if seen.shutdown {
        Decision::Stop
    } else if seen.child == ChildState::ExitedCleanly {
        Decision::Finish
    } else if seen.child == ChildState::Failed {
        Decision::Restart(Restart::Failure)
    } else if no_watch {
        Decision::GoOn { recorded: false, stale: false }
    } else {
        match after {
            None => Decision::GoOn { recorded: false, stale: false },
            Some(update) => if text::optional(seen.mode) != Some("orchestrate"@) {
                Decision::Restart(Restart::SingleRole)
            } else if seen.idle_mtime matches Some(t) && t >= started_at && t >= update.mtime {
                Decision::Restart(Restart::Idle)
            } else {
                Decision::GoOn { recorded: after != pending, stale: seen.idle_exists }
            },
        }
    }
}

fn note_update(pending: Option<BinaryCandidate>, updated: Option<BinaryCandidate>) -> (r: Option<
    BinaryCandidate,
>)
    ensures
        r == pending_after(pending, updated),
{
    match (pending, updated) {
        (Some(p), Some(u)) => if p.mtime < u.mtime {
            Some(u)
        } else {
            Some(p)
        },
        (None, u) => u,
        (Some(p), None) => Some(p),
    }
}

/// Decides what the supervisor does next, and notes an update.
pub fn tick(
    pending: &mut Option<BinaryCandidate>,
    seen: &Observed,
    started_at: i128,
    no_watch: bool,
) -> (r: Decision)
    ensures
        r == decision(*old(pending), *seen, started_at, no_watch),
        *final(pending) == if seen.shutdown || seen.child != ChildState::Running || no_watch {
            *old(pending)
        } else {
            pending_after(*old(pending), seen.updated)
        },
{
    if seen.shutdown {
        return Decision::Stop;
    }
    match seen.child {
        ChildState::ExitedCleanly => {
            return Decision::Finish;
        },
        ChildState::Failed => {
            return Decision::Restart(Restart::Failure);
        },
        ChildState::Running => {},
    }
    if no_watch {
        return Decision::GoOn { recorded: false, stale: false };
    }
    let before = *pending;
    let after = note_update(before, seen.updated);
    *pending = after;
    match after {
        None => Decision::GoOn { recorded: false, stale: false },
        Some(update) => {
            let orchestrates = match &seen.mode {
                Some(m) => same(m.as_str(), "orchestrate"),
                None => false,
            };
            if !orchestrates {
                return Decision::Restart(Restart::SingleRole);
            }
            match seen.idle_mtime {
                Some(t) => {
                    if t >= started_at && t >= update.mtime {
                        return Decision::Restart(Restart::Idle);
                    }
                },
                None => {},
            }
            let recorded = match (before, seen.updated) {
                (Some(p), Some(u)) => p.mtime < u.mtime,
                (None, Some(_)) => true,
                (_, None) => false,
            };
            Decision::GoOn { recorded, stale: seen.idle_exists }
        },
    }
}

/// An orchestrator that is at work is not interrupted by an update.
pub proof fn law_a_busy_orchestrator_is_not_restarted(
    pending: Option<BinaryCandidate>,
    seen: Observed,
    started_at: i128,
    no_watch: bool,
)
    requires
        !seen.shutdown,
        seen.child == ChildState::Running,
        text::optional(seen.mode) == Some("orchestrate"@),
        seen.idle_mtime matches Some(t) ==> t < started_at,
    ensures
        decision(pending, seen, started_at, no_watch) is GoOn,
{
}

/// A child that ended well is not restarted.
pub proof fn law_a_clean_exit_is_final(
    pending: Option<BinaryCandidate>,
    seen: Observed,
    started_at: i128,
    no_watch: bool,
)
    requires
        seen.child == ChildState::ExitedCleanly,
    ensures
        decision(pending, seen, started_at, no_watch) == Decision::Finish || decision(
            pending,
            seen,
            started_at,
            no_watch,
        ) == Decision::Stop,
{
}

/// The name of a reason to restart.
pub open spec fn reason_text(r: Restart) -> Seq<char> {
    match r {
        Restart::Failure => "failure-restart"@,
        Restart::SingleRole => "single-role-update"@,
        Restart::Idle => "orchestrate-idle-update"@,
    }
}

/// The name of a reason to restart.
pub fn restart_reason(r: Restart) -> (t: &'static str)
    ensures
        t@ == reason_text(r),
{
    match r {
        Restart::Failure => "failure-restart",
        Restart::SingleRole => "single-role-update",
        Restart::Idle => "orchestrate-idle-update",
    }
}

/// What is done about a child that is waited for.
#[derive(Debug, Clone, Copy, PartialEq, Eq, Structural)]
pub enum WaitStep {
    Done,
    Kill,
    Sleep,
}

/// What is done about a child that is waited for: it ended, or its state cannot be
/// read, or it had its time.
pub fn wait_step(exited: bool, unreadable: bool, elapsed_ms: u64, timeout_ms: u64) -> (r: WaitStep)
    ensures
        r == if exited || unreadable {
            WaitStep::Done
        } else if elapsed_ms > timeout_ms {
            WaitStep::Kill
        } else {
            WaitStep::Sleep
        },
{
    if exited || unreadable {
        WaitStep::Done
    } else if elapsed_ms > timeout_ms {
        WaitStep::Kill
    } else {
        WaitStep::Sleep
    }
}

// ---------------------------------------------------------------------------
// The checkpoint before a restart
// ---------------------------------------------------------------------------

/// The steps of a checkpoint.
#[derive(Debug, Clone, Copy, PartialEq, Eq, Structural)]
pub enum Step {
    Build,
    Add,
    Diff,
    Commit,
    Push,
    Done,
}

/// How a command ended: well, with a status other than nought, or not at all.
#[derive(Debug)]
pub enum Outcome {
    Success,
    NonZero,
    Error(String),
}

/// The step that follows. What fails ends the checkpoint; a difference is what makes
/// it worth a commit.
pub open spec fn next_step(step: Step, outcome: Outcome) -> Step {
    match (step, outcome) {
        (Step::Build, Outcome::Success) => Step::Add,
        (Step::Add, Outcome::Success) => Step::Diff,
        (Step::Add, Outcome::NonZero) => Step::Diff,
        (Step::Diff, Outcome::NonZero) => Step::Commit,
        (Step::Commit, Outcome::Success) => Step::Push,
        _ => Step::Done,
    }
}

/// A line of the supervisor.
pub open spec fn line(head: Seq<char>, reason: Seq<char>) -> Seq<char> {
    "[canon-mini-supervisor] "@ + head + " ("@ + reason + ")"@
}

fn write_line(head: &str, reason: &str) -> (r: String)
    ensures
        r@ == line(head@, reason@),
{
    let mut t = "[canon-mini-supervisor] ".to_owned();
    t.append(head);
    t.append(" (");
    t.append(reason);
    t.append(")");
    t
}

/// A line of the supervisor with an error.
pub open spec fn error_line(head: Seq<char>, reason: Seq<char>, error: Seq<char>) -> Seq<char> {
    line(head, reason) + ": "@ + error
}

fn write_error_line(head: &str, reason: &str, error: &str) -> (r: String)
    ensures
        r@ == error_line(head@, reason@, error@),
{
    let mut t = write_line(head, reason);
    t.append(": ");
    t.append(error);
    t
}

/// The message of the commit.
pub open spec fn commit_message(reason: Seq<char>) -> Seq<char> {
    "supervisor pre-restart checkpoint ("@ + reason + ")"@
}

fn write_commit_message(reason: &str) -> (r: String)
    ensures
        r@ == commit_message(reason@),
{
    let mut t = "supervisor pre-restart checkpoint (".to_owned();
    t.append(reason);
    t.append(")");
    t
}

/// The program of a step and its arguments; nothing once all is done.
pub open spec fn command(step: Step, reason: Seq<char>) -> Seq<Seq<char>> {
    match step {
        Step::Build => seq!["cargo"@, "build"@, "--workspace"@],
        Step::Add => seq!["git"@, "add"@, "-A"@],
        Step::Diff => seq!["git"@, "diff"@, "--cached"@, "--quiet"@],
        Step::Commit => seq!["git"@, "commit"@, "-m"@, commit_message(reason)],
        Step::Push => seq!["git"@, "push"@],
        Step::Done => Seq::empty(),
    }
}

fn words(list: Vec<&str>) -> (r: Vec<String>)
    ensures
        text::texts(r@) == list@.map_values(|w: &str| w@),
{
    let mut out: Vec<String> = Vec::new();
    let mut i: usize = 0;
    while i < list.len()
        invariant
            i <= list@.len(),
            out@.len() == i,
            forall|k: int| 0 <= k < i ==> (#[trigger] out@[k])@ == list@[k]@,
        decreases list@.len() - i,
    {
        out.push(list[i].to_owned());
        i += 1;
    }
    assert(text::texts(out@) =~= list@.map_values(|w: &str| w@));
    out
}

/// The program of a step and its arguments.
pub fn command_for(step: Step, reason: &str) -> (r: Vec<String>)
    ensures
        text::texts(r@) == command(step, reason@),
{
    let message = write_commit_message(reason);
    let list: Vec<&str> = match step {
        Step::Build => vec!["cargo", "build", "--workspace"],
        Step::Add => vec!["git", "add", "-A"],
        Step::Diff => vec!["git", "diff", "--cached", "--quiet"],
        Step::Commit => vec!["git", "commit", "-m", message.as_str()],
        Step::Push => vec!["git", "push"],
        Step::Done => Vec::new(),
    };
    assert(list@.map_values(|w: &str| w@) =~= command(step, reason@));
    words(list)
}

/// What is said before a step.
pub open spec fn announced(step: Step, reason: Seq<char>) -> Seq<Seq<char>> {
    match step {
        Step::Build => seq![
            line("pre-restart checkpoint start"@, reason),
            line("pre-restart: running `cargo build --workspace`"@, reason),
        ],
        Step::Add => seq![line("pre-restart: running `git add -A`"@, reason)],
        Step::Commit => seq![
            line(
                "pre-restart: running `git commit -m \""@ + commit_message(reason) + "\"`"@,
                reason,
            ),
        ],
        Step::Push => seq![line("pre-restart: running `git push`"@, reason)],
        _ => Seq::empty(),
    }
}

/// What is said before a step.
pub fn announcement(step: Step, reason: &str) -> (r: Vec<String>)
    ensures
        text::texts(r@) == announced(step, reason@),
{
    let list = empty_list();
    let list = match step {
        Step::Build => {
            let list = and_text(list, write_line("pre-restart checkpoint start", reason));
            and_text(
                list,
                write_line("pre-restart: running `cargo build --workspace`", reason),
            )
        },
        Step::Add => and_text(list, write_line("pre-restart: running `git add -A`", reason)),
        Step::Commit => {
            let mut head = "pre-restart: running `git commit -m \"".to_owned();
            head.append(write_commit_message(reason).as_str());
            head.append("\"`");
            and_text(list, write_line(head.as_str(), reason))
        },
        Step::Push => and_text(list, write_line("pre-restart: running `git push`", reason)),
        _ => list,
    };
    assert(text::texts(list@) =~= announced(step, reason@));
    list
}

/// What is said after a step.
pub open spec fn reported(step: Step, outcome: Outcome, reason: Seq<char>) -> Seq<Seq<char>> {
    match (step, outcome) {
        (Step::Build, Outcome::Success) => seq![
            line("pre-restart: cargo build passed"@, reason),
        ],
        (Step::Build, Outcome::NonZero) => seq![
            line("pre-restart cargo build failed; skipping git add/commit/push"@, reason),
        ],
        (Step::Build, Outcome::Error(e)) => seq![
            error_line(
                "pre-restart cargo build errored; skipping git add/commit/push"@,
                reason,
                e@,
            ),
        ],
        (Step::Add, Outcome::Error(e)) => seq![error_line("git add failed"@, reason, e@)],
        (Step::Add, _) => seq![line("pre-restart: git add completed"@, reason)],
        (Step::Diff, Outcome::Success) => seq![
            line("no staged changes after successful build; skipping commit/push"@, reason),
        ],
        (Step::Diff, Outcome::NonZero) => Seq::empty(),
        (Step::Diff, Outcome::Error(e)) => seq![
            error_line("git diff --cached failed"@, reason, e@),
        ],
        (Step::Commit, Outcome::Success) => seq![
            line("pre-restart: git commit completed"@, reason),
        ],
        (Step::Commit, Outcome::NonZero) => seq![line("git commit returned non-zero"@, reason)],
        (Step::Commit, Outcome::Error(e)) => seq![error_line("git commit failed"@, reason, e@)],
        (Step::Push, Outcome::Success) => seq![
            line("pre-restart: git push completed"@, reason),
            line("pre-restart checkpoint done"@, reason),
        ],
        (Step::Push, Outcome::NonZero) => seq![line("git push returned non-zero"@, reason)],
        (Step::Push, Outcome::Error(e)) => seq![error_line("git push failed"@, reason, e@)],
        (Step::Done, _) => Seq::empty(),
    }
}

fn one(t: String) -> (r: Vec<String>)
    ensures
        text::texts(r@) == seq![t@],
{
    let r = and_text(empty_list(), t);
    assert(text::texts(r@) =~= seq![t@]);
    r
}

/// What is said after a step.
pub fn report(step: Step, outcome: &Outcome, reason: &str) -> (r: Vec<String>)
    ensures
        text::texts(r@) == reported(step, *outcome, reason@),
{
    let none = empty_list();
    match (step, outcome) {
        (Step::Build, Outcome::Success) => one(
            write_line("pre-restart: cargo build passed", reason),
        ),
        (Step::Build, Outcome::NonZero) => one(
            write_line("pre-restart cargo build failed; skipping git add/commit/push", reason),
        ),
        (Step::Build, Outcome::Error(e)) => one(
            write_error_line(
                "pre-restart cargo build errored; skipping git add/commit/push",
                reason,
                e.as_str(),
            ),
        ),
        (Step::Add, Outcome::Error(e)) => one(
            write_error_line("git add failed", reason, e.as_str()),
        ),
        (Step::Add, _) => one(write_line("pre-restart: git add completed", reason)),
        (Step::Diff, Outcome::Success) => one(
            write_line("no staged changes after successful build; skipping commit/push", reason),
        ),
        (Step::Diff, Outcome::NonZero) => none,
        (Step::Diff, Outcome::Error(e)) => one(
            write_error_line("git diff --cached failed", reason, e.as_str()),
        ),
        (Step::Commit, Outcome::Success) => one(
            write_line("pre-restart: git commit completed", reason),
        ),
        (Step::Commit, Outcome::NonZero) => one(
            write_line("git commit returned non-zero", reason),
        ),
        (Step::Commit, Outcome::Error(e)) => one(
            write_error_line("git commit failed", reason, e.as_str()),
        ),
        (Step::Push, Outcome::Success) => {
            let r = and_text(
                one(write_line("pre-restart: git push completed", reason)),
                write_line("pre-restart checkpoint done", reason),
            );
            assert(text::texts(r@) =~= reported(step, *outcome, reason@));
            r
        },
        (Step::Push, Outcome::NonZero) => one(write_line("git push returned non-zero", reason)),
        (Step::Push, Outcome::Error(e)) => one(
            write_error_line("git push failed", reason, e.as_str()),
        ),
        (Step::Done, _) => none,
    }
}

/// The step that follows.
pub fn advance(step: Step, outcome: &Outcome) -> (r: Step)
    ensures
        r == next_step(step, *outcome),
{
    match (step, outcome) {
        (Step::Build, Outcome::Success) => Step::Add,
        (Step::Add, Outcome::Success) => Step::Diff,
        (Step::Add, Outcome::NonZero) => Step::Diff,
        (Step::Diff, Outcome::NonZero) => Step::Commit,
        (Step::Commit, Outcome::Success) => Step::Push,
        _ => Step::Done,
    }
}

/// Where a checkpoint stands after its commands ended in the given ways.
pub open spec fn reached(outcomes: Seq<Outcome>) -> Step
    decreases outcomes.len(),
{
    if outcomes.len() == 0 {
        Step::Build
    } else {
        next_step(reached(outcomes.drop_last()), outcomes.last())
    }
}

/// Nothing is committed unless the build passed and something was staged, and
/// nothing is pushed unless it was committed.
pub proof fn law_only_a_good_build_is_committed(outcomes: Seq<Outcome>)
    ensures
        reached(outcomes) == Step::Commit ==> outcomes.len() == 3 && outcomes[0]
            == Outcome::Success && !(outcomes[1] is Error) && outcomes[2] == Outcome::NonZero,
        reached(outcomes) == Step::Push ==> outcomes.len() == 4 && outcomes[0]
            == Outcome::Success && outcomes[2] == Outcome::NonZero && outcomes[3]
            == Outcome::Success,
{
    reveal_with_fuel(reached, 6);
    lemma_steps(outcomes);
    if outcomes.len() >= 1 {
        lemma_steps(outcomes.drop_last());
    }
}

proof fn lemma_steps(outcomes: Seq<Outcome>)
    ensures
        reached(outcomes) == Step::Build ==> outcomes.len() == 0,
        reached(outcomes) == Step::Add ==> outcomes.len() == 1 && outcomes[0] == Outcome::Success,
        reached(outcomes) == Step::Diff ==> outcomes.len() == 2 && outcomes[0] == Outcome::Success
            && !(outcomes[1] is Error),
        reached(outcomes) == Step::Commit ==> outcomes.len() == 3 && outcomes[0]
            == Outcome::Success && !(outcomes[1] is Error) && outcomes[2] == Outcome::NonZero,
        reached(outcomes) == Step::Push ==> outcomes.len() == 4 && outcomes[0] == Outcome::Success
            && !(outcomes[1] is Error) && outcomes[2] == Outcome::NonZero && outcomes[3]
            == Outcome::Success,
    decreases outcomes.len(),
{
    if outcomes.len() > 0 {
        lemma_steps(outcomes.drop_last());
    }
}

/// A checkpoint runs at most five commands.
pub proof fn law_a_checkpoint_ends(outcomes: Seq<Outcome>)
    requires
        outcomes.len() >= 5,
    ensures
        reached(outcomes) == Step::Done,
{
    lemma_steps(outcomes);
}

} // verus!
