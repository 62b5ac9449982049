//! What the drivers decide.

use crate::capability;
use crate::captures;
use crate::captures::CaptureNumberView;
use crate::constants;
use crate::eval_driver;
use crate::eval_driver::ScoreChanges;
use crate::events;
use crate::events::ControlEvent;
use crate::events::EffectEvent;
use crate::events::Event;
use crate::events::ScoreChange;
use crate::events::TlogRecord;
use crate::flags;
use crate::fnv;
use crate::generate_issues;
use crate::generate_issues::SelectedMode;
use crate::graph_metrics::Detector;
use crate::json;
use crate::json::JsonView;
use crate::text;
use crate::user_chat;
use vstd::prelude::*;

verus! {

// ---------------------------------------------------------------------------
// Modes
// ---------------------------------------------------------------------------

/// The flags that select a mode, the strongest first.
pub open spec fn mode_flags() -> Seq<Seq<char>> {
    seq![
        "--graph-complexity-only"@,
        "--graph-verify-snapshot"@,
        "--graph-verify-delta"@,
        "--artifact-writer-only"@,
        "--error-shaping-only"@,
        "--state-transition-only"@,
        "--planner-loop-only"@,
        "--implicit-state-machine-only"@,
        "--effect-boundary-only"@,
        "--logging-dispersion-only"@,
        "--process-spawn-only"@,
        "--network-usage-only"@,
        "--representation-fanout-only"@,
        "--cfg-region-only"@,
        "--scc-region-only"@,
        "--dominator-region-only"@,
        "--alpha-only"@,
    ]
}

/// None of the first `n` flags that select a mode is given.
pub open spec fn none_of(args: Seq<Seq<char>>, n: int) -> bool {
    forall|i: int| 0 <= i < n ==> !args.contains(#[trigger] mode_flags()[i])
}

/// Each flag selects its mode where no stronger one is given; without any of them
/// everything runs.
pub proof fn law_a_flag_selects_its_mode(args: Seq<Seq<char>>)
    ensures
        args.contains("--graph-complexity-only"@) ==> generate_issues::mode_of(args) == SelectedMode::GraphComplexityReport,
        args.contains("--graph-verify-snapshot"@) && none_of(args, 1) ==> generate_issues::mode_of(args) == SelectedMode::GraphSnapshot,
        args.contains("--graph-verify-delta"@) && none_of(args, 2) ==> generate_issues::mode_of(args) == SelectedMode::GraphDelta,
        args.contains("--artifact-writer-only"@) && none_of(args, 3) ==> generate_issues::mode_of(args) == SelectedMode::One(Detector::ArtifactWriters),
        args.contains("--error-shaping-only"@) && none_of(args, 4) ==> generate_issues::mode_of(args) == SelectedMode::One(Detector::ErrorShaping),
        args.contains("--state-transition-only"@) && none_of(args, 5) ==> generate_issues::mode_of(args) == SelectedMode::One(Detector::StateTransitions),
        args.contains("--planner-loop-only"@) && none_of(args, 6) ==> generate_issues::mode_of(args) == SelectedMode::One(Detector::PlannerLoop),
        args.contains("--implicit-state-machine-only"@) && none_of(args, 7) ==> generate_issues::mode_of(args) == SelectedMode::One(Detector::ImplicitStateMachines),
        args.contains("--effect-boundary-only"@) && none_of(args, 8) ==> generate_issues::mode_of(args) == SelectedMode::One(Detector::EffectBoundaries),
        args.contains("--logging-dispersion-only"@) && none_of(args, 9) ==> generate_issues::mode_of(args) == SelectedMode::One(Detector::Logging),
        args.contains("--process-spawn-only"@) && none_of(args, 10) ==> generate_issues::mode_of(args) == SelectedMode::One(Detector::ProcessSpawns),
        args.contains("--network-usage-only"@) && none_of(args, 11) ==> generate_issues::mode_of(args) == SelectedMode::One(Detector::NetworkUsage),
        args.contains("--representation-fanout-only"@) && none_of(args, 12) ==> generate_issues::mode_of(args) == SelectedMode::RepresentationFanout,
        args.contains("--cfg-region-only"@) && none_of(args, 13) ==> generate_issues::mode_of(args) == SelectedMode::CfgRegions,
        args.contains("--scc-region-only"@) && none_of(args, 14) ==> generate_issues::mode_of(args) == SelectedMode::SccRegions,
        args.contains("--dominator-region-only"@) && none_of(args, 15) ==> generate_issues::mode_of(args) == SelectedMode::DominatorRegions,
        args.contains("--alpha-only"@) && none_of(args, 16) ==> generate_issues::mode_of(args) == SelectedMode::AlphaPathways,
        none_of(args, 17) ==> generate_issues::mode_of(args) == SelectedMode::Everything,
{
    assert(mode_flags()[0] == "--graph-complexity-only"@);
    assert(mode_flags()[1] == "--graph-verify-snapshot"@);
    assert(mode_flags()[2] == "--graph-verify-delta"@);
    assert(mode_flags()[3] == "--artifact-writer-only"@);
    assert(mode_flags()[4] == "--error-shaping-only"@);
    assert(mode_flags()[5] == "--state-transition-only"@);
    assert(mode_flags()[6] == "--planner-loop-only"@);
    assert(mode_flags()[7] == "--implicit-state-machine-only"@);
    assert(mode_flags()[8] == "--effect-boundary-only"@);
    assert(mode_flags()[9] == "--logging-dispersion-only"@);
    assert(mode_flags()[10] == "--process-spawn-only"@);
    assert(mode_flags()[11] == "--network-usage-only"@);
    assert(mode_flags()[12] == "--representation-fanout-only"@);
    assert(mode_flags()[13] == "--cfg-region-only"@);
    assert(mode_flags()[14] == "--scc-region-only"@);
    assert(mode_flags()[15] == "--dominator-region-only"@);
    assert(mode_flags()[16] == "--alpha-only"@);
}

/// Arguments that select no mode change none: what is given beside a flag does not
/// matter.
pub proof fn law_only_flags_select_a_mode(args: Seq<Seq<char>>, more: Seq<char>)
    requires
        forall|i: int| 0 <= i < mode_flags().len() ==> more != #[trigger] mode_flags()[i],
    ensures
        generate_issues::mode_of(args.push(more)) == generate_issues::mode_of(args),
{
    assert forall|i: int| 0 <= i < mode_flags().len() implies args.push(more).contains(
        #[trigger] mode_flags()[i],
    ) == args.contains(mode_flags()[i]) by {
        let f = mode_flags()[i];
        if args.contains(f) {
            let k = choose|k: int| 0 <= k < args.len() && args[k] == f;
            assert(args.push(more)[k] == f);
        }
        if args.push(more).contains(f) {
            let k = choose|k: int| 0 <= k < args.push(more).len() && args.push(more)[k] == f;
            assert(args[k] == f);
        }
    }
    assert(mode_flags()[0] == "--graph-complexity-only"@);
    assert(mode_flags()[1] == "--graph-verify-snapshot"@);
    assert(mode_flags()[2] == "--graph-verify-delta"@);
    assert(mode_flags()[3] == "--artifact-writer-only"@);
    assert(mode_flags()[4] == "--error-shaping-only"@);
    assert(mode_flags()[5] == "--state-transition-only"@);
    assert(mode_flags()[6] == "--planner-loop-only"@);
    assert(mode_flags()[7] == "--implicit-state-machine-only"@);
    assert(mode_flags()[8] == "--effect-boundary-only"@);
    assert(mode_flags()[9] == "--logging-dispersion-only"@);
    assert(mode_flags()[10] == "--process-spawn-only"@);
    assert(mode_flags()[11] == "--network-usage-only"@);
    assert(mode_flags()[12] == "--representation-fanout-only"@);
    assert(mode_flags()[13] == "--cfg-region-only"@);
    assert(mode_flags()[14] == "--scc-region-only"@);
    assert(mode_flags()[15] == "--dominator-region-only"@);
    assert(mode_flags()[16] == "--alpha-only"@);
}

// ---------------------------------------------------------------------------
// Evaluations
// ---------------------------------------------------------------------------

/// A change is promoted exactly where neither the score nor the contract nor the
/// safety went down.
pub proof fn law_a_regression_is_not_promoted(
    overall: ScoreChange,
    semantic_contract: ScoreChange,
    safety: ScoreChange,
)
    ensures
        ({
            let c = ScoreChanges { overall, semantic_contract, safety };
            &&& overall == ScoreChange::Regressed ==> !eval_driver::may_promote(c)
            &&& semantic_contract == ScoreChange::Regressed ==> !eval_driver::may_promote(c)
            &&& safety == ScoreChange::Regressed ==> !eval_driver::may_promote(c)
            &&& overall != ScoreChange::Regressed && semantic_contract != ScoreChange::Regressed
                && safety != ScoreChange::Regressed ==> eval_driver::may_promote(c)
        }),
{
}

/// Scores are held by the records of evaluations alone.
pub proof fn law_only_an_evaluation_holds_scores(r: TlogRecord)
    ensures
        eval_driver::holds_scores(r) <==> (r.event matches Event::Effect { event }
            && event is EvalScoreRecorded),
{
}

// ---------------------------------------------------------------------------
// Captures
// ---------------------------------------------------------------------------

/// A capture holds one row for each crate that has a name, in their order.
pub proof fn law_each_named_crate_has_a_row(items: Seq<JsonView>, item: JsonView)
    ensures
        captures::crate_rows(Seq::empty()).len() == 0,
        json::text_field(item, "crate"@) is None ==> captures::crate_rows(items.push(item))
            == captures::crate_rows(items),
        json::text_field(item, "crate"@) is Some ==> {
            let rows = captures::crate_rows(items.push(item));
            &&& rows.drop_last() == captures::crate_rows(items)
            &&& rows.len() > 0
            &&& rows.last().0 == json::text_field(item, "crate"@)->0
            &&& rows.last().1 == captures::row_of(item)
        },
{
    assert(items.push(item).drop_last() =~= items);
    let before = captures::crate_rows(items);
    let row = (json::text_field(item, "crate"@)->0, captures::row_of(item));
    assert(before.push(row).drop_last() =~= before);
}

/// A row reads each number under its own name; what is not there counts nothing.
pub proof fn law_a_row_reads_each_number_under_its_name(v: JsonView, n: u64)
    ensures
        json::field(v, "overall_graph_entropy_score"@) == Some(JsonView::Uint(n))
            ==> captures::row_of(v).entropy == CaptureNumberView::Natural(n),
        json::field(v, "pathway_count"@) == Some(JsonView::Uint(n)) ==> captures::row_of(
            v,
        ).pathway_count == CaptureNumberView::Natural(n),
        json::field(v, "redundant_path_count"@) == Some(JsonView::Uint(n)) ==> captures::row_of(
            v,
        ).redundant_path_count == CaptureNumberView::Natural(n),
        json::field(v, "artifact_writer_dispersion_count"@) == Some(JsonView::Uint(n))
            ==> captures::row_of(v).artifact_writer_dispersion_count == CaptureNumberView::Natural(
            n,
        ),
        json::field(v, "error_shaping_dispersion_count"@) == Some(JsonView::Uint(n))
            ==> captures::row_of(v).error_shaping_dispersion_count == CaptureNumberView::Natural(n),
        json::field(v, "state_transition_dispersion_count"@) == Some(JsonView::Uint(n))
            ==> captures::row_of(v).state_transition_dispersion_count
            == CaptureNumberView::Natural(n),
        json::field(v, "representation_fanout_count"@) == Some(JsonView::Uint(n))
            ==> captures::row_of(v).representation_fanout_count == CaptureNumberView::Natural(n),
        json::field(v, "pathway_count"@) is None ==> captures::row_of(v).pathway_count
            == CaptureNumberView::Natural(0),
{
}

/// The numbers of a capture are those under its totals and crates.
pub proof fn law_a_capture_is_read_by_its_names(v: JsonView, items: Seq<JsonView>, t: JsonView)
    ensures
        json::field(v, "totals"@) == Some(t) ==> captures::numbers_of(v).totals
            == captures::row_of(t),
        json::field(v, "generated_at_ms"@) == Some(t) ==> captures::numbers_of(v).generated_at == t,
        json::field(v, "generated_at_ms"@) is None ==> captures::numbers_of(v).generated_at
            == JsonView::Null,
        json::field(v, "crates"@) == Some(JsonView::Array(items)) ==> captures::numbers_of(v).crates
            == captures::crate_rows(items),
        json::field(v, "crates"@) is None ==> captures::numbers_of(v).crates.len() == 0,
{
}

// ---------------------------------------------------------------------------
// Messages and paths
// ---------------------------------------------------------------------------

/// A path is absolute exactly where it begins with a slash.
pub proof fn law_an_absolute_path_begins_with_a_slash(path: Seq<char>)
    ensures
        user_chat::absolute(path) <==> path.len() > 0 && path[0] == '/',
{
    reveal_strlit("/");
    assert("/"@ =~= seq!['/']);
    if path.len() > 0 && path[0] == '/' {
        assert(path.take(1) =~= "/"@);
    }
    if user_chat::absolute(path) {
        assert(path[0] == path.take(1)[0]);
    }
}

/// A state directory that is given is taken; without one it stands in the workspace.
pub proof fn law_the_state_stands_in_the_workspace(workspace: Seq<char>, dir: Seq<char>)
    ensures
        user_chat::state_dir_of(workspace, Some(dir)) == dir,
        workspace.len() > 0 && workspace.last() != '/' ==> user_chat::state_dir_of(workspace, None)
            == workspace + "/agent_state"@,
{
    reveal_strlit("/");
    reveal_strlit("agent_state");
    reveal_strlit("/agent_state");
    assert("agent_state"@[0] == 'a');
    assert("/agent_state"@ =~= "/"@ + "agent_state"@);
    assert(workspace + "/"@ + "agent_state"@ =~= workspace + "/agent_state"@);
}

/// A message to a role and its wakeup stand below the state directory under the name
/// of the role.
pub proof fn law_a_message_stands_under_its_role(dir: Seq<char>, key: Seq<char>)
    requires
        dir.len() > 0,
        dir.last() != '/',
    ensures
        user_chat::message_file(dir, key) == dir + "/last_message_to_"@ + key + ".json"@,
        user_chat::wakeup_file(dir, key) == dir + "/wakeup_"@ + key + ".flag"@,
{
    reveal_strlit("/");
    reveal_strlit("last_message_to_");
    reveal_strlit("/last_message_to_");
    reveal_strlit("wakeup_");
    reveal_strlit("/wakeup_");
    assert("last_message_to_"@[0] == 'l');
    assert("wakeup_"@[0] == 'w');
    let m = "last_message_to_"@ + key + ".json"@;
    let w = "wakeup_"@ + key + ".flag"@;
    assert(m[0] == 'l' && w[0] == 'w');
    assert("/last_message_to_"@ =~= "/"@ + "last_message_to_"@);
    assert("/wakeup_"@ =~= "/"@ + "wakeup_"@);
    assert(dir + "/"@ + m =~= dir + "/last_message_to_"@ + key + ".json"@);
    assert(dir + "/"@ + w =~= dir + "/wakeup_"@ + key + ".flag"@);
}

/// What is handed to a role says who sends it, to whom, and holds the message twice.
pub proof fn law_a_handoff_carries_the_message(key: Seq<char>, message: Seq<char>)
    ensures
        user_chat::handoff(key, message) matches JsonView::Object(ms)
            && ms.contains(("to"@, JsonView::Text(key)))
            && ms.contains(("from"@, JsonView::Text("user"@)))
            && ms.contains(("action"@, JsonView::Text("message"@)))
            && ms.contains(("type"@, JsonView::Text("handoff"@)))
            && ms.contains(("status"@, JsonView::Text("ready"@)))
            && exists|ps: Seq<(Seq<char>, JsonView)>|
                #[trigger] ms.contains(("payload"@, JsonView::Object(ps)))
                    && ps.contains(("summary"@, JsonView::Text(message)))
                    && ps.contains(("user_message"@, JsonView::Text(message)))
                    && ps.contains(("reply_to"@, JsonView::Text("user"@))),
{
    let ms = user_chat::handoff(key, message)->Object_0;
    assert(ms[0] == ("action"@, JsonView::Text("message"@)));
    assert(ms[1] == ("from"@, JsonView::Text("user"@)));
    assert(ms[5] == ("status"@, JsonView::Text("ready"@)));
    assert(ms[6] == ("to"@, JsonView::Text(key)));
    assert(ms[7] == ("type"@, JsonView::Text("handoff"@)));
    let ps = json::no_members().push(("reply_to"@, JsonView::Text("user"@))).push(
        ("summary"@, JsonView::Text(message)),
    ).push(("user_message"@, JsonView::Text(message)));
    assert(ms[3] == ("payload"@, JsonView::Object(ps)));
    assert(ps[0] == ("reply_to"@, JsonView::Text("user"@)));
    assert(ps[1] == ("summary"@, JsonView::Text(message)));
    assert(ps[2] == ("user_message"@, JsonView::Text(message)));
    assert(ms.contains(("payload"@, JsonView::Object(ps))));
}

/// A result says that the call went well, whether the work is done, and what came out.
pub proof fn law_a_result_tells_what_came_out(done: bool, output: Seq<char>)
    ensures
        capability::result_value(done, output) matches JsonView::Object(ms)
            && ms.contains(("done"@, JsonView::Bool(done)))
            && ms.contains(("ok"@, JsonView::Bool(true)))
            && ms.contains(("output"@, JsonView::Text(output))) && ms.len() == 3,
{
    let ms = capability::result_value(done, output)->Object_0;
    assert(ms[0] == ("done"@, JsonView::Bool(done)));
    assert(ms[1] == ("ok"@, JsonView::Bool(true)));
    assert(ms[2] == ("output"@, JsonView::Text(output)));
}

/// A call needs a workspace and a step that is a number, and the first that is missing
/// is named.
pub proof fn law_a_call_needs_a_workspace_and_a_step(args: Seq<Seq<char>>)
    ensures
        flags::flag_value(args, "--workspace"@) is None ==> capability::argument_error(args)
            == Some("missing --workspace"@),
        flags::flag_value(args, "--workspace"@) is Some && flags::flag_value(args, "--step"@)
            is None ==> capability::argument_error(args) == Some("missing --step"@),
        flags::flag_value(args, "--workspace"@) is Some ==> (flags::flag_value(args, "--step"@)
            matches Some(step) ==> (capability::argument_error(args) is None <==> (text::parsed(step)
            matches Some(n) && n <= usize::MAX))),
        flags::flag_value(args, "--workspace"@) is Some ==> (flags::flag_value(args, "--step"@)
            matches Some(step) ==> (text::parsed(step) is None ==> capability::argument_error(args)
            == Some("--step must be an integer"@))),
{
    reveal_strlit("--step");
    reveal_strlit(" must be an integer");
    reveal_strlit("--step must be an integer");
    assert("--step must be an integer"@ =~= "--step"@ + " must be an integer"@);
}

proof fn lemma_last_slash(p: Seq<char>)
    ensures
        -1 <= constants::last_slash(p) < p.len(),
        constants::last_slash(p) >= 0 ==> p[constants::last_slash(p)] == '/',
        forall|k: int| constants::last_slash(p) < k < p.len() ==> p[k] != '/',
    decreases p.len(),
{
    if p.len() > 0 && p.last() != '/' {
        lemma_last_slash(p.drop_last());
        assert forall|k: int| constants::last_slash(p) < k < p.len() implies p[k] != '/' by {
            if k < p.len() - 1 {
                assert(p[k] == p.drop_last()[k]);
            }
        }
    }
}

/// A path is the directory above it, a slash and a name without slashes.
pub proof fn law_a_path_stands_in_its_directory(p: Seq<char>, name: Seq<char>)
    requires
        p.len() > 0,
        !name.contains('/'),
    ensures
        constants::directory_above(p.push('/') + name) == p,
        constants::directory_above(seq!['/'] + name) == "/"@,
{
    let q = p.push('/') + name;
    lemma_last_slash(q);
    let at = constants::last_slash(q);
    assert(q[p.len() as int] == '/');
    if at > p.len() {
        assert(name[at - p.len() - 1] == '/');
    }
    assert(q.take(p.len() as int) =~= p);
    let r = seq!['/'] + name;
    lemma_last_slash(r);
    assert(r[0] == '/');
    if constants::last_slash(r) > 0 {
        assert(name[constants::last_slash(r) - 1] == '/');
    }
}

/// Planners wait twice as long as executors, and no one else waits.
pub proof fn law_planners_and_executors_wait(role: Seq<char>)
    ensures
        role == "planner"@ ==> constants::role_timeout(role) == Some(60u64),
        role == "mini_planner"@ ==> constants::role_timeout(role) == Some(60u64),
        role == "executor"@ ==> constants::role_timeout(role) == Some(30u64),
        constants::role_timeout(role) is Some ==> role == "planner"@ || role == "mini_planner"@
            || role == "executor"@,
{
    reveal_strlit("planner");
    reveal_strlit("mini_planner");
    reveal_strlit("executor");
    assert("planner"@[0] == 'p');
    assert("mini_planner"@[0] == 'm');
    assert("executor"@[0] == 'e');
}

// ---------------------------------------------------------------------------
// Lanes and hashes
// ---------------------------------------------------------------------------

/// No effect speaks of a lane.
pub proof fn law_an_effect_has_no_lane(event: EffectEvent)
    ensures
        events::lane_of(Event::Effect { event }) is None,
{
}

/// A control event speaks of the lane that it names.
pub proof fn law_a_control_event_has_its_lane(event: ControlEvent, lane: usize)
    ensures
        (event matches ControlEvent::PhaseSet { lane: l, .. } ==> events::lane_of(
            Event::Control { event },
        ) == l),
        (event matches ControlEvent::LanePendingSet { lane_id, .. } ==> events::lane_of(
            Event::Control { event },
        ) == Some(lane_id)),
        (event matches ControlEvent::LaneInProgressSet { lane_id, .. } ==> events::lane_of(
            Event::Control { event },
        ) == Some(lane_id)),
        (event matches ControlEvent::LaneStepsUsedSet { lane_id, .. } ==> events::lane_of(
            Event::Control { event },
        ) == Some(lane_id)),
        (event matches ControlEvent::TabIdToLaneSet { lane_id, .. } ==> events::lane_of(
            Event::Control { event },
        ) == Some(lane_id)),
        (event matches ControlEvent::ExecutorTurnRegistered { lane_id, .. } ==> events::lane_of(
            Event::Control { event },
        ) == Some(lane_id)),
{
}

/// A hash goes on where it stopped.
pub proof fn law_a_hash_goes_on(h: u64, a: Seq<u8>, b: Seq<u8>)
    ensures
        fnv::fnv(h, Seq::empty()) == h,
        fnv::fnv(h, a + b) == fnv::fnv(fnv::fnv(h, a), b),
    decreases b.len(),
{
    if b.len() == 0 {
        assert(a + b =~= a);
    } else {
        law_a_hash_goes_on(h, a, b.drop_last());
        assert((a + b).drop_last() =~= a + b.drop_last());
    }
}

} // verus!
