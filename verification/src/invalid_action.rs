//! Feedback on invalid actions, and the repair of those that only lack fields.

use crate::json;
use crate::json::{
    and, array, copy_json, find_member, get, get_text, members, number, object, optional_string,
    set_member, string, string_array, Json, JsonView,
};
use crate::json_text;
use crate::json_text::pretty_text;
use crate::text;
use crate::text::{
    and_text, contains, empty_list, is_blank, join, same, starts_with, strip_prefix, strip_suffix,
    to_ascii_lower, to_lowercase,
};
use vstd::prelude::*;
use vstd::string::*;

verus! {

// ---------------------------------------------------------------------------
// Routes
// ---------------------------------------------------------------------------

/// Where a message comes from, where it goes, and what it is.
#[derive(Debug)]
pub struct MessageRoute {
    pub from: String,
    pub to_role: String,
    pub msg_type: String,
    pub status: String,
}

/// A route as texts.
pub struct RouteView {
    pub from: Seq<char>,
    pub to_role: Seq<char>,
    pub msg_type: Seq<char>,
    pub status: Seq<char>,
}

impl View for MessageRoute {
    type V = RouteView;

    open spec fn view(&self) -> RouteView {
        RouteView {
            from: self.from@,
            to_role: self.to_role@,
            msg_type: self.msg_type@,
            status: self.status@,
        }
    }
}

/// A route of the given parts.
pub open spec fn route_of(
    from: Seq<char>,
    to_role: Seq<char>,
    msg_type: Seq<char>,
    status: Seq<char>,
) -> RouteView {
    RouteView { from, to_role, msg_type, status }
}

/// The route of the messages of a role.
pub open spec fn default_route(role: Seq<char>) -> RouteView {
    if text::has_prefix(role, "executor"@) {
        route_of("executor"@, "verifier"@, "handoff"@, "complete"@)
    } else if role == "verifier"@ {
        route_of("verifier"@, "planner"@, "verification"@, "verified"@)
    } else if role == "diagnostics"@ {
        route_of("diagnostics"@, "planner"@, "diagnostics"@, "complete"@)
    } else if role == "solo"@ {
        route_of("solo"@, "solo"@, "result"@, "complete"@)
    } else if role == "planner"@ || role == "mini_planner"@ {
        route_of("planner"@, "executor"@, "plan"@, "complete"@)
    } else {
        route_of("executor"@, "verifier"@, "handoff"@, "complete"@)
    }
}

/// The route of the messages of a role: from, to, type and status.
pub fn default_message_route(role: &str) -> (r: (
    &'static str,
    &'static str,
    &'static str,
    &'static str,
))
    ensures
        route_of(r.0@, r.1@, r.2@, r.3@) == default_route(role@),
{
    if starts_with(role, "executor") {
        ("executor", "verifier", "handoff", "complete")
    } else if same(role, "verifier") {
        ("verifier", "planner", "verification", "verified")
    } else if same(role, "diagnostics") {
        ("diagnostics", "planner", "diagnostics", "complete")
    } else if same(role, "solo") {
        ("solo", "solo", "result", "complete")
    } else if same(role, "planner") || same(role, "mini_planner") {
        ("planner", "executor", "plan", "complete")
    } else {
        ("executor", "verifier", "handoff", "complete")
    }
}

/// Every part of a role's route is given.
pub proof fn law_a_default_route_is_complete(role: Seq<char>)
    ensures
        ({
            let r = default_route(role);
            &&& r.from.len() > 0
            &&& r.to_role.len() > 0
            &&& r.msg_type.len() > 0
            &&& r.status.len() > 0
        }),
{
    reveal_strlit("executor");
    reveal_strlit("verifier");
    reveal_strlit("handoff");
    reveal_strlit("complete");
    reveal_strlit("planner");
    reveal_strlit("verification");
    reveal_strlit("verified");
    reveal_strlit("diagnostics");
    reveal_strlit("solo");
    reveal_strlit("result");
    reveal_strlit("plan");
}

/// The route that an action names, where it names all of its parts.
pub open spec fn named_route(action: JsonView) -> Option<RouteView> {
    match (
        json::text_field(action, "from"@),
        json::text_field(action, "to"@),
        json::text_field(action, "type"@),
        json::text_field(action, "status"@),
    ) {
        (Some(from), Some(to_role), Some(msg_type), Some(status)) => Some(
            route_of(from, to_role, msg_type, status),
        ),
        _ => None,
    }
}

/// A route in lower case.
pub open spec fn lowercase_route(r: RouteView) -> RouteView {
    route_of(
        text::lowercase(r.from),
        text::lowercase(r.to_role),
        text::lowercase(r.msg_type),
        text::lowercase(r.status),
    )
}

/// The route of an example message: the one that the action names, else that of the
/// role, in lower case.
pub open spec fn example_route(raw_action: Option<JsonView>, role: Seq<char>) -> RouteView {
    match raw_action {
        Some(action) => match named_route(action) {
            Some(r) => lowercase_route(r),
            None => lowercase_route(default_route(role)),
        },
        None => lowercase_route(default_route(role)),
    }
}

/// A value that may be there.
pub open spec fn shown(v: Option<&Json>) -> Option<JsonView> {
    match v {
        Some(x) => Some(x@),
        None => None,
    }
}

fn lowercase_parts(from: &str, to_role: &str, msg_type: &str, status: &str) -> (r: MessageRoute)
    ensures
        r@ == lowercase_route(route_of(from@, to_role@, msg_type@, status@)),
{
    MessageRoute {
        from: to_lowercase(from),
        to_role: to_lowercase(to_role),
        msg_type: to_lowercase(msg_type),
        status: to_lowercase(status),
    }
}

/// The route of an example message.
pub fn normalized_message_example_route(raw_action: Option<&Json>, role: &str) -> (r: MessageRoute)
    ensures
        r@ == example_route(shown(raw_action), role@),
{
    match raw_action {
        Some(action) => {
            let from = get_text(action, "from");
            let to_role = get_text(action, "to");
            let msg_type = get_text(action, "type");
            let status = get_text(action, "status");
            match (from, to_role, msg_type, status) {
                (Some(from), Some(to_role), Some(msg_type), Some(status)) => {
                    return lowercase_parts(from, to_role, msg_type, status);
                },
                _ => {},
            }
        },
        None => {},
    }
    let (from, to_role, msg_type, status) = default_message_route(role);
    lowercase_parts(from, to_role, msg_type, status)
}

// ---------------------------------------------------------------------------
// Templates
// ---------------------------------------------------------------------------

/// A message in one line, with its route filled in.
pub open spec fn one_line(
    from: Seq<char>,
    to_role: Seq<char>,
    msg_type: Seq<char>,
    status: Seq<char>,
) -> Seq<char> {
    "{ \"action\": \"message\", \"from\": \""@ + from + "\", \"to\": \""@ + to_role + "\", \"type\": \""@ + msg_type + "\", \"status\": \""@ + status + "\", \"payload\": { \"summary\": \"...\" } }"@
}

/// A message in one line, with its route filled in.
pub fn expected_message_format(from: &str, to_role: &str, msg_type: &str, status: &str) -> (r:
    String)
    ensures
        r@ == one_line(from@, to_role@, msg_type@, status@),
{
    let mut t = "{ \"action\": \"message\", \"from\": \"".to_owned();
    t.append(from);
    t.append("\", \"to\": \"");
    t.append(to_role);
    t.append("\", \"type\": \"");
    t.append(msg_type);
    t.append("\", \"status\": \"");
    t.append(status);
    t.append("\", \"payload\": { \"summary\": \"...\" } }");
    t
}

/// A field with its value as text.
pub open spec fn field_line(key: Seq<char>, value: Seq<char>) -> Seq<char> {
    "\""@ + key + "\": \""@ + value + "\""@
}

/// The fields of the payload, the summary first.
pub open spec fn payload_fields(extra: Seq<(Seq<char>, Seq<char>)>) -> Seq<Seq<char>> {
    seq!["\"summary\": \"...\""@] + extra.map_values(
        |f: (Seq<char>, Seq<char>)| field_line(f.0, f.1),
    )
}

/// A whole message over several lines, with its route filled in.
pub open spec fn whole_message(
    from: Seq<char>,
    to_role: Seq<char>,
    msg_type: Seq<char>,
    status: Seq<char>,
    extra: Seq<(Seq<char>, Seq<char>)>,
) -> Seq<char> {
    let payload_lines = text::joined(payload_fields(extra), ",\n    "@);
    "```json\n{\n  \"action\": \"message\",\n  \"from\": \""@ + from + "\",\n  \"to\": \""@ + to_role + "\",\n  \"type\": \""@ + msg_type + "\",\n  \"status\": \""@ + status + "\",\n  \"observation\": \"...\",\n  \"rationale\": \"...\",\n  \"predicted_next_actions\": [\n    {\"action\": \"read_file\", \"intent\": \"Inspect the relevant source before making changes.\"},\n    {\"action\": \"run_command\", \"intent\": \"Verify the current workspace state after the read.\"}\n  ],\n  \"payload\": {\n    "@ + payload_lines + "\n  }\n}\n```"@
}

/// What fields hold.
pub open spec fn field_views(v: Seq<(&str, &str)>) -> Seq<(Seq<char>, Seq<char>)> {
    v.map_values(|f: (&str, &str)| (f.0@, f.1@))
}

/// A whole message over several lines, with its route and the given fields of its
/// payload filled in.
pub fn format_message_schema(
    from: &str,
    to_role: &str,
    msg_type: &str,
    status: &str,
    extra_payload: &[(&str, &str)],
) -> (r: String)
    ensures
        r@ == whole_message(from@, to_role@, msg_type@, status@, field_views(extra_payload@)),
{
    let mut payload: Vec<String> = Vec::new();
    payload.push("\"summary\": \"...\"".to_owned());
    let mut i: usize = 0;
    while i < extra_payload.len()
        invariant
            i <= extra_payload@.len(),
            payload@.len() == i + 1,
            payload@[0]@ == "\"summary\": \"...\""@,
            forall|k: int|
                0 <= k < i ==> (#[trigger] payload@[k + 1])@ == field_line(
                    extra_payload@[k].0@,
                    extra_payload@[k].1@,
                ),
        decreases extra_payload@.len() - i,
    {
        let mut t = "\"".to_owned();
        t.append(extra_payload[i].0);
        t.append("\": \"");
        t.append(extra_payload[i].1);
        t.append("\"");
        payload.push(t);
        i += 1;
    }
    proof {
        let fields = payload_fields(field_views(extra_payload@));
        assert forall|k: int| 0 <= k < fields.len() implies text::texts(payload@)[k]
            == fields[k] by {
            if k > 0 {
                assert(payload@[(k - 1) + 1]@ == field_line(
                    extra_payload@[k - 1].0@,
                    extra_payload@[k - 1].1@,
                ));
            }
        }
        assert(text::texts(payload@) =~= fields);
    }
    let payload_lines = join(&payload, ",\n    ");
    let mut t = "```json\n{\n  \"action\": \"message\",\n  \"from\": \"".to_owned();
    t.append(from);
    t.append("\",\n  \"to\": \"");
    t.append(to_role);
    t.append("\",\n  \"type\": \"");
    t.append(msg_type);
    t.append("\",\n  \"status\": \"");
    t.append(status);
    t.append("\",\n  \"observation\": \"...\",\n  \"rationale\": \"...\",\n  \"predicted_next_actions\": [\n    {\"action\": \"read_file\", \"intent\": \"Inspect the relevant source before making changes.\"},\n    {\"action\": \"run_command\", \"intent\": \"Verify the current workspace state after the read.\"}\n  ],\n  \"payload\": {\n    ");
    t.append(payload_lines.as_str());
    t.append("\n  }\n}\n```");
    t
}

/// A message that reports a blocker.
pub open spec fn blocker_message_example() -> Seq<char> {
    "```json\n{\n  \"action\": \"message\",\n  \"from\": \"executor\",\n  \"to\": \"planner\",\n  \"type\": \"blocker\",\n  \"status\": \"blocked\",\n  \"observation\": \"Describe the blocked state.\",\n  \"rationale\": \"Explain why progress is impossible without external action.\",\n  \"predicted_next_actions\": [\n    {\"action\": \"read_file\", \"intent\": \"Inspect the relevant source before making changes.\"},\n    {\"action\": \"run_command\", \"intent\": \"Verify the current workspace state after the read.\"}\n  ],\n  \"payload\": {\n    \"summary\": \"Short blocker summary\",\n    \"blocker\": \"Root cause\",\n    \"evidence\": \"Concrete error text or failing command\",\n    \"required_action\": \"What must be done to unblock\",\n    \"severity\": \"error\"\n  }\n}\n```"@
}

/// A message that reports a blocker.
pub fn blocker_message_example_template() -> (r: &'static str)
    ensures
        r@ == blocker_message_example(),
{
    "```json\n{\n  \"action\": \"message\",\n  \"from\": \"executor\",\n  \"to\": \"planner\",\n  \"type\": \"blocker\",\n  \"status\": \"blocked\",\n  \"observation\": \"Describe the blocked state.\",\n  \"rationale\": \"Explain why progress is impossible without external action.\",\n  \"predicted_next_actions\": [\n    {\"action\": \"read_file\", \"intent\": \"Inspect the relevant source before making changes.\"},\n    {\"action\": \"run_command\", \"intent\": \"Verify the current workspace state after the read.\"}\n  ],\n  \"payload\": {\n    \"summary\": \"Short blocker summary\",\n    \"blocker\": \"Root cause\",\n    \"evidence\": \"Concrete error text or failing command\",\n    \"required_action\": \"What must be done to unblock\",\n    \"severity\": \"error\"\n  }\n}\n```"
}

/// Actions of each supported kind; the last holds two messages.
pub open spec fn action_templates() -> Seq<Seq<char>> {
    text::no_texts().push(
        "```json\n{\n  \"action\": \"list_dir\",\n  \"path\": \".\",\n  \"observation\": \"List workspace root to locate targets.\",\n  \"rationale\": \"Confirm files before acting.\",\n  \"predicted_next_actions\": [\n    {\"action\": \"read_file\", \"intent\": \"Open the most relevant file after locating it.\"},\n    {\"action\": \"run_command\", \"intent\": \"Verify workspace state after locating targets.\"}\n  ]\n}\n```"@,
    ).push(
        "```json\n{\n  \"action\": \"read_file\",\n  \"path\": \"src/lib.rs\",\n  \"observation\": \"Read file to understand current logic.\",\n  \"rationale\": \"Need context before patching.\",\n  \"predicted_next_actions\": [\n    {\"action\": \"symbol_window\", \"intent\": \"Inspect the exact function body after the read.\"},\n    {\"action\": \"apply_patch\", \"intent\": \"Patch the file once the relevant context is confirmed.\"}\n  ]\n}\n```"@,
    ).push(
        "```json\n{\n  \"action\": \"symbols_index\",\n  \"path\": \"src\",\n  \"out\": \"state/symbols.json\",\n  \"observation\": \"Build deterministic symbol inventory.\",\n  \"rationale\": \"Need a unique sorted symbols catalog before rename/refactor planning.\",\n  \"predicted_next_actions\": [\n    {\"action\": \"read_file\", \"intent\": \"Inspect generated symbols catalog.\"},\n    {\"action\": \"rename_symbol\", \"intent\": \"Rename one selected symbol precisely.\"}\n  ]\n}\n```"@,
    ).push(
        "```json\n{\n  \"action\": \"symbols_rename_candidates\",\n  \"symbols_path\": \"state/symbols.json\",\n  \"out\": \"state/rename_candidates.json\",\n  \"observation\": \"Derive deterministic rename candidates from symbol inventory.\",\n  \"rationale\": \"Prioritize naming cleanup before direct symbol mutation.\",\n  \"predicted_next_actions\": [\n    {\"action\": \"read_file\", \"intent\": \"Inspect generated rename candidates.\"},\n    {\"action\": \"rename_symbol\", \"intent\": \"Apply one selected rename candidate.\"}\n  ]\n}\n```"@,
    ).push(
        "```json\n{\n  \"action\": \"symbols_prepare_rename\",\n  \"candidates_path\": \"state/rename_candidates.json\",\n  \"index\": 0,\n  \"out\": \"state/next_rename_action.json\",\n  \"observation\": \"Select the top rename candidate.\",\n  \"rationale\": \"Prepare a concrete rename_symbol payload before mutation.\",\n  \"predicted_next_actions\": [\n    {\"action\": \"read_file\", \"intent\": \"Inspect prepared rename action JSON.\"},\n    {\"action\": \"rename_symbol\", \"intent\": \"Execute the prepared rename action.\"}\n  ]\n}\n```"@,
    ).push(
        "```json\n{\n  \"action\": \"rename_symbol\",\n  \"old_symbol\": \"tools::handle_plan_action\",\n  \"new_symbol\": \"tools::handle_master_plan_action\",\n  \"question\": \"Is this the exact symbol that should be renamed across the crate without changing behavior?\",\n  \"observation\": \"Source evidence identified the target symbol.\",\n  \"rationale\": \"Perform a deterministic symbol rename.\",\n  \"predicted_next_actions\": [\n    {\"action\": \"cargo_test\", \"intent\": \"Run focused tests for renamed behavior.\"},\n    {\"action\": \"run_command\", \"intent\": \"Run cargo check for compile safety.\"}\n  ]\n}\n```"@,
    ).push(
        "```json\n{\n  \"action\": \"objectives\",\n  \"op\": \"read\",\n  \"observation\": \"Load non-completed objectives for planning context.\",\n  \"rationale\": \"Need current objectives without completed items.\",\n  \"predicted_next_actions\": [\n    {\"action\": \"plan\", \"intent\": \"Align plan tasks with active objectives.\"},\n    {\"action\": \"read_file\", \"intent\": \"Inspect the source tied to the next actionable objective.\"}\n  ]\n}\n```"@,
    ).push(
        "```json\n{\n  \"action\": \"apply_patch\",\n  \"patch\": \"*** Begin Patch\\n*** Update File: path/to/file.rs\\n@@\\n- old\\n+ new\\n*** End Patch\",\n  \"question\": \"Does current source evidence justify this exact file edit?\",\n  \"observation\": \"Apply the required edit.\",\n  \"rationale\": \"Implement the change directly.\",\n  \"predicted_next_actions\": [\n    {\"action\": \"cargo_test\", \"intent\": \"Verify the patch with tests.\"},\n    {\"action\": \"run_command\", \"intent\": \"Check the workspace for follow-on failures.\"}\n  ]\n}\n```"@,
    ).push(
        "```json\n{\n  \"action\": \"plan\",\n  \"op\": \"create_task\",\n  \"question\": \"Does the current evidence require a new tracked task in PLAN.json?\",\n  \"task\": {\"id\": \"T4\", \"title\": \"Add plan DAG\", \"status\": \"todo\", \"priority\": 3},\n  \"observation\": \"Planning update needed.\",\n  \"rationale\": \"Track work in PLAN.json via plan tool.\",\n  \"predicted_next_actions\": [\n    {\"action\": \"read_file\", \"intent\": \"Inspect the source tied to the new task.\"},\n    {\"action\": \"run_command\", \"intent\": \"Gather evidence for the next task step.\"}\n  ]\n}\n```"@,
    ).push(
        "```json\n{\n  \"action\": \"run_command\",\n  \"cmd\": \"rg -n \\\"trigger_observe\\\" src\",\n  \"observation\": \"Search for observe triggers.\",\n  \"rationale\": \"Locate all callsites before patching.\",\n  \"predicted_next_actions\": [\n    {\"action\": \"read_file\", \"intent\": \"Open the matching source region.\"},\n    {\"action\": \"apply_patch\", \"intent\": \"Patch the confirmed callsite if needed.\"}\n  ]\n}\n```"@,
    ).push(
        "```json\n{\n  \"action\": \"python\",\n  \"code\": \"import json; print('analyze')\",\n  \"observation\": \"Run structured analysis.\",\n  \"rationale\": \"Use Python for parsing tasks.\",\n  \"predicted_next_actions\": [\n    {\"action\": \"read_file\", \"intent\": \"Inspect files identified by the analysis.\"},\n    {\"action\": \"run_command\", \"intent\": \"Verify the analysis result in the workspace.\"}\n  ]\n}\n```"@,
    ).push(
        "```json\n{\n  \"action\": \"cargo_test\",\n  \"crate\": \"canon-mini-agent\",\n  \"test\": \"optional_test_name\",\n  \"observation\": \"Run tests for the target crate.\",\n  \"rationale\": \"Verify changes.\",\n  \"predicted_next_actions\": [\n    {\"action\": \"read_file\", \"intent\": \"Inspect source tied to any failing test.\"},\n    {\"action\": \"run_command\", \"intent\": \"Review the generated test log if more detail is needed.\"}\n  ]\n}\n```"@,
    ).push(
        "```json\n{\n  \"action\": \"rustc_hir\",\n  \"crate\": \"canon_mini_agent\",\n  \"mode\": \"hir-tree\",\n  \"extra\": \"\",\n  \"observation\": \"Inspect HIR output.\",\n  \"rationale\": \"Diagnose compiler-level behavior.\",\n  \"predicted_next_actions\": [\n    {\"action\": \"symbol_window\", \"intent\": \"Inspect the concrete symbol body after the HIR scan.\"},\n    {\"action\": \"read_file\", \"intent\": \"Open the relevant source lines once the target symbol is known.\"}\n  ]\n}\n```"@,
    ).push(
        "```json\n{\n  \"action\": \"rustc_mir\",\n  \"crate\": \"canon_mini_agent\",\n  \"mode\": \"mir\",\n  \"extra\": \"\",\n  \"observation\": \"Inspect MIR output.\",\n  \"rationale\": \"Diagnose compiler-level behavior.\",\n  \"predicted_next_actions\": [\n    {\"action\": \"symbol_neighborhood\", \"intent\": \"Inspect nearby callers and callees after the MIR scan.\"},\n    {\"action\": \"read_file\", \"intent\": \"Open the relevant source lines once the MIR target is confirmed.\"}\n  ]\n}\n```"@,
    ).push(
        "```json\n{\n  \"action\": \"graph_call\",\n  \"crate\": \"canon_mini_agent\",\n  \"out_dir\": \"\",\n  \"observation\": \"Generate call graph.\",\n  \"rationale\": \"Inspect call graph output.\"\n}\n```"@,
    ).push(
        "```json\n{\n  \"action\": \"graph_cfg\",\n  \"crate\": \"canon_mini_agent\",\n  \"out_dir\": \"\",\n  \"observation\": \"Generate CFG graph.\",\n  \"rationale\": \"Inspect CFG output.\"\n}\n```"@,
    ).push(
        "```json\n{\n  \"action\": \"graph_dataflow\",\n  \"crate\": \"canon_mini_agent\",\n  \"tlog\": \"\",\n  \"out_dir\": \"\",\n  \"observation\": \"Generate dataflow report.\",\n  \"rationale\": \"Inspect dataflow metrics.\"\n}\n```"@,
    ).push(
        "```json\n{\n  \"action\": \"graph_reachability\",\n  \"crate\": \"canon_mini_agent\",\n  \"tlog\": \"\",\n  \"out_dir\": \"\",\n  \"observation\": \"Generate reachability report.\",\n  \"rationale\": \"Inspect reachability metrics.\"\n}\n```"@,
    ).push(
        whole_message("executor"@, "verifier"@, "result"@, "complete"@, Seq::empty()) + "\n"@
            + blocker_message_example(),
    )
}

/// Actions of each supported kind; the last holds two messages.
pub fn unsupported_action_templates() -> (r: Vec<String>)
    ensures
        text::texts(r@) == action_templates(),
{
    let templates = empty_list();
    let templates = and_text(
        templates,
        "```json\n{\n  \"action\": \"list_dir\",\n  \"path\": \".\",\n  \"observation\": \"List workspace root to locate targets.\",\n  \"rationale\": \"Confirm files before acting.\",\n  \"predicted_next_actions\": [\n    {\"action\": \"read_file\", \"intent\": \"Open the most relevant file after locating it.\"},\n    {\"action\": \"run_command\", \"intent\": \"Verify workspace state after locating targets.\"}\n  ]\n}\n```".to_owned(),
    );
    let templates = and_text(
        templates,
        "```json\n{\n  \"action\": \"read_file\",\n  \"path\": \"src/lib.rs\",\n  \"observation\": \"Read file to understand current logic.\",\n  \"rationale\": \"Need context before patching.\",\n  \"predicted_next_actions\": [\n    {\"action\": \"symbol_window\", \"intent\": \"Inspect the exact function body after the read.\"},\n    {\"action\": \"apply_patch\", \"intent\": \"Patch the file once the relevant context is confirmed.\"}\n  ]\n}\n```".to_owned(),
    );
    let templates = and_text(
        templates,
        "```json\n{\n  \"action\": \"symbols_index\",\n  \"path\": \"src\",\n  \"out\": \"state/symbols.json\",\n  \"observation\": \"Build deterministic symbol inventory.\",\n  \"rationale\": \"Need a unique sorted symbols catalog before rename/refactor planning.\",\n  \"predicted_next_actions\": [\n    {\"action\": \"read_file\", \"intent\": \"Inspect generated symbols catalog.\"},\n    {\"action\": \"rename_symbol\", \"intent\": \"Rename one selected symbol precisely.\"}\n  ]\n}\n```".to_owned(),
    );
    let templates = and_text(
        templates,
        "```json\n{\n  \"action\": \"symbols_rename_candidates\",\n  \"symbols_path\": \"state/symbols.json\",\n  \"out\": \"state/rename_candidates.json\",\n  \"observation\": \"Derive deterministic rename candidates from symbol inventory.\",\n  \"rationale\": \"Prioritize naming cleanup before direct symbol mutation.\",\n  \"predicted_next_actions\": [\n    {\"action\": \"read_file\", \"intent\": \"Inspect generated rename candidates.\"},\n    {\"action\": \"rename_symbol\", \"intent\": \"Apply one selected rename candidate.\"}\n  ]\n}\n```".to_owned(),
    );
    let templates = and_text(
        templates,
        "```json\n{\n  \"action\": \"symbols_prepare_rename\",\n  \"candidates_path\": \"state/rename_candidates.json\",\n  \"index\": 0,\n  \"out\": \"state/next_rename_action.json\",\n  \"observation\": \"Select the top rename candidate.\",\n  \"rationale\": \"Prepare a concrete rename_symbol payload before mutation.\",\n  \"predicted_next_actions\": [\n    {\"action\": \"read_file\", \"intent\": \"Inspect prepared rename action JSON.\"},\n    {\"action\": \"rename_symbol\", \"intent\": \"Execute the prepared rename action.\"}\n  ]\n}\n```".to_owned(),
    );
    let templates = and_text(
        templates,
        "```json\n{\n  \"action\": \"rename_symbol\",\n  \"old_symbol\": \"tools::handle_plan_action\",\n  \"new_symbol\": \"tools::handle_master_plan_action\",\n  \"question\": \"Is this the exact symbol that should be renamed across the crate without changing behavior?\",\n  \"observation\": \"Source evidence identified the target symbol.\",\n  \"rationale\": \"Perform a deterministic symbol rename.\",\n  \"predicted_next_actions\": [\n    {\"action\": \"cargo_test\", \"intent\": \"Run focused tests for renamed behavior.\"},\n    {\"action\": \"run_command\", \"intent\": \"Run cargo check for compile safety.\"}\n  ]\n}\n```".to_owned(),
    );
    let templates = and_text(
        templates,
        "```json\n{\n  \"action\": \"objectives\",\n  \"op\": \"read\",\n  \"observation\": \"Load non-completed objectives for planning context.\",\n  \"rationale\": \"Need current objectives without completed items.\",\n  \"predicted_next_actions\": [\n    {\"action\": \"plan\", \"intent\": \"Align plan tasks with active objectives.\"},\n    {\"action\": \"read_file\", \"intent\": \"Inspect the source tied to the next actionable objective.\"}\n  ]\n}\n```".to_owned(),
    );
    let templates = and_text(
        templates,
        "```json\n{\n  \"action\": \"apply_patch\",\n  \"patch\": \"*** Begin Patch\\n*** Update File: path/to/file.rs\\n@@\\n- old\\n+ new\\n*** End Patch\",\n  \"question\": \"Does current source evidence justify this exact file edit?\",\n  \"observation\": \"Apply the required edit.\",\n  \"rationale\": \"Implement the change directly.\",\n  \"predicted_next_actions\": [\n    {\"action\": \"cargo_test\", \"intent\": \"Verify the patch with tests.\"},\n    {\"action\": \"run_command\", \"intent\": \"Check the workspace for follow-on failures.\"}\n  ]\n}\n```".to_owned(),
    );
    let templates = and_text(
        templates,
        "```json\n{\n  \"action\": \"plan\",\n  \"op\": \"create_task\",\n  \"question\": \"Does the current evidence require a new tracked task in PLAN.json?\",\n  \"task\": {\"id\": \"T4\", \"title\": \"Add plan DAG\", \"status\": \"todo\", \"priority\": 3},\n  \"observation\": \"Planning update needed.\",\n  \"rationale\": \"Track work in PLAN.json via plan tool.\",\n  \"predicted_next_actions\": [\n    {\"action\": \"read_file\", \"intent\": \"Inspect the source tied to the new task.\"},\n    {\"action\": \"run_command\", \"intent\": \"Gather evidence for the next task step.\"}\n  ]\n}\n```".to_owned(),
    );
    let templates = and_text(
        templates,
        "```json\n{\n  \"action\": \"run_command\",\n  \"cmd\": \"rg -n \\\"trigger_observe\\\" src\",\n  \"observation\": \"Search for observe triggers.\",\n  \"rationale\": \"Locate all callsites before patching.\",\n  \"predicted_next_actions\": [\n    {\"action\": \"read_file\", \"intent\": \"Open the matching source region.\"},\n    {\"action\": \"apply_patch\", \"intent\": \"Patch the confirmed callsite if needed.\"}\n  ]\n}\n```".to_owned(),
    );
    let templates = and_text(
        templates,
        "```json\n{\n  \"action\": \"python\",\n  \"code\": \"import json; print('analyze')\",\n  \"observation\": \"Run structured analysis.\",\n  \"rationale\": \"Use Python for parsing tasks.\",\n  \"predicted_next_actions\": [\n    {\"action\": \"read_file\", \"intent\": \"Inspect files identified by the analysis.\"},\n    {\"action\": \"run_command\", \"intent\": \"Verify the analysis result in the workspace.\"}\n  ]\n}\n```".to_owned(),
    );
    let templates = and_text(
        templates,
        "```json\n{\n  \"action\": \"cargo_test\",\n  \"crate\": \"canon-mini-agent\",\n  \"test\": \"optional_test_name\",\n  \"observation\": \"Run tests for the target crate.\",\n  \"rationale\": \"Verify changes.\",\n  \"predicted_next_actions\": [\n    {\"action\": \"read_file\", \"intent\": \"Inspect source tied to any failing test.\"},\n    {\"action\": \"run_command\", \"intent\": \"Review the generated test log if more detail is needed.\"}\n  ]\n}\n```".to_owned(),
    );
    let templates = and_text(
        templates,
        "```json\n{\n  \"action\": \"rustc_hir\",\n  \"crate\": \"canon_mini_agent\",\n  \"mode\": \"hir-tree\",\n  \"extra\": \"\",\n  \"observation\": \"Inspect HIR output.\",\n  \"rationale\": \"Diagnose compiler-level behavior.\",\n  \"predicted_next_actions\": [\n    {\"action\": \"symbol_window\", \"intent\": \"Inspect the concrete symbol body after the HIR scan.\"},\n    {\"action\": \"read_file\", \"intent\": \"Open the relevant source lines once the target symbol is known.\"}\n  ]\n}\n```".to_owned(),
    );
    let templates = and_text(
        templates,
        "```json\n{\n  \"action\": \"rustc_mir\",\n  \"crate\": \"canon_mini_agent\",\n  \"mode\": \"mir\",\n  \"extra\": \"\",\n  \"observation\": \"Inspect MIR output.\",\n  \"rationale\": \"Diagnose compiler-level behavior.\",\n  \"predicted_next_actions\": [\n    {\"action\": \"symbol_neighborhood\", \"intent\": \"Inspect nearby callers and callees after the MIR scan.\"},\n    {\"action\": \"read_file\", \"intent\": \"Open the relevant source lines once the MIR target is confirmed.\"}\n  ]\n}\n```".to_owned(),
    );
    let templates = and_text(
        templates,
        "```json\n{\n  \"action\": \"graph_call\",\n  \"crate\": \"canon_mini_agent\",\n  \"out_dir\": \"\",\n  \"observation\": \"Generate call graph.\",\n  \"rationale\": \"Inspect call graph output.\"\n}\n```".to_owned(),
    );
    let templates = and_text(
        templates,
        "```json\n{\n  \"action\": \"graph_cfg\",\n  \"crate\": \"canon_mini_agent\",\n  \"out_dir\": \"\",\n  \"observation\": \"Generate CFG graph.\",\n  \"rationale\": \"Inspect CFG output.\"\n}\n```".to_owned(),
    );
    let templates = and_text(
        templates,
        "```json\n{\n  \"action\": \"graph_dataflow\",\n  \"crate\": \"canon_mini_agent\",\n  \"tlog\": \"\",\n  \"out_dir\": \"\",\n  \"observation\": \"Generate dataflow report.\",\n  \"rationale\": \"Inspect dataflow metrics.\"\n}\n```".to_owned(),
    );
    let templates = and_text(
        templates,
        "```json\n{\n  \"action\": \"graph_reachability\",\n  \"crate\": \"canon_mini_agent\",\n  \"tlog\": \"\",\n  \"out_dir\": \"\",\n  \"observation\": \"Generate reachability report.\",\n  \"rationale\": \"Inspect reachability metrics.\"\n}\n```".to_owned(),
    );
    let none: Vec<(&str, &str)> = Vec::new();
    assert(field_views(none@) =~= Seq::<(Seq<char>, Seq<char>)>::empty());
    let mut messages = format_message_schema(
        "executor",
        "verifier",
        "result",
        "complete",
        none.as_slice(),
    );
    messages.append("\n");
    messages.append(blocker_message_example_template());
    and_text(templates, messages)
}

/// The given texts, each on a line of its own.
pub open spec fn as_lines(ts: Seq<Seq<char>>) -> Seq<char>
    decreases ts.len(),
{
    if ts.len() == 0 {
        Seq::empty()
    } else {
        as_lines(ts.drop_last()) + ts.last() + "\n"@
    }
}

/// What a mutating action has to state.
pub open spec fn question_hint() -> Seq<char> {
    "For any mutating retry (`apply_patch`, `plan`, `objectives`, `issue`, or `rename_symbol`), include a non-empty `question` field stating the decision-boundary premise. Return exactly one action."@
}

/// How to correct an action of a kind that is not supported.
pub open spec fn unsupported_correction(kind: Seq<char>) -> Seq<char> {
    "Invalid action: unsupported action '"@ + kind
        + "'.\nCorrective action required: use a supported tool action. Templates:\n"@ + as_lines(
        action_templates(),
    ) + question_hint()
}

/// How to correct an action of a kind that is not supported.
pub fn unsupported_action_correction(kind: &str) -> (r: String)
    ensures
        r@ == unsupported_correction(kind@),
{
    let mut msg = "Invalid action: unsupported action '".to_owned();
    msg.append(kind);
    msg.append("'.\nCorrective action required: use a supported tool action. Templates:\n");
    let templates = unsupported_action_templates();
    let ghost all = text::texts(templates@);
    let ghost head = msg@;
    let mut i: usize = 0;
    assert(all.take(0) =~= Seq::empty());
    assert(head + as_lines(all.take(0)) =~= head);
    while i < templates.len()
        invariant
            i <= templates@.len(),
            all == text::texts(templates@),
            msg@ == head + as_lines(all.take(i as int)),
        decreases templates@.len() - i,
    {
        proof {
            assert(all.take(i + 1).drop_last() =~= all.take(i as int));
            assert(all.take(i + 1).last() == templates@[i as int]@);
        }
        msg.append(templates[i].as_str());
        msg.append("\n");
        assert(msg@ =~= head + as_lines(all.take(i + 1)));
        i += 1;
    }
    assert(all.take(i as int) =~= all);
    msg.append(
        "For any mutating retry (`apply_patch`, `plan`, `objectives`, `issue`, or `rename_symbol`), include a non-empty `question` field stating the decision-boundary premise. Return exactly one action.",
    );
    msg
}

/// How to correct a message that lacks a field.
pub open spec fn message_correction(missing_field: Seq<char>, role: Seq<char>) -> Seq<char> {
    let route = default_route(role);
    let expected = one_line(route.from, route.to_role, route.msg_type, route.status);
    "Invalid action: message missing non-empty '"@ + missing_field
        + "'.\nCorrective action required: use a full message schema with required fields. Do not use `content`; use `payload`.\nTemplate:\n"@
        + whole_message(
        route.from,
        route.to_role,
        route.msg_type,
        route.status,
        seq![
            ("details"@, "Optional extra context."@),
            ("expected_format"@, expected),
        ],
    ) + "\n"@ + question_hint()
}

/// How to correct a message that lacks a field.
pub fn message_schema_correction(missing_field: &str, role: &str) -> (r: String)
    ensures
        r@ == message_correction(missing_field@, role@),
{
    let (from, to_role, msg_type, status) = default_message_route(role);
    let expected = expected_message_format(from, to_role, msg_type, status);
    let mut msg = "Invalid action: message missing non-empty '".to_owned();
    msg.append(missing_field);
    msg.append(
        "'.\nCorrective action required: use a full message schema with required fields. Do not use `content`; use `payload`.\nTemplate:\n",
    );
    let mut extra: Vec<(&str, &str)> = Vec::new();
    extra.push(("details", "Optional extra context."));
    extra.push(("expected_format", expected.as_str()));
    assert(field_views(extra@) =~= seq![
        ("details"@, "Optional extra context."@),
        ("expected_format"@, expected@),
    ]);
    let schema = format_message_schema(from, to_role, msg_type, status, extra.as_slice());
    msg.append(schema.as_str());
    msg.append("\n");
    msg.append(
        "For any mutating retry (`apply_patch`, `plan`, `objectives`, `issue`, or `rename_symbol`), include a non-empty `question` field stating the decision-boundary premise. Return exactly one action.",
    );
    msg
}

/// The field that an error says is missing from a message.
pub open spec fn missing_field_of(err_text: Seq<char>) -> Option<Seq<char>> {
    let head = "message missing non-empty '"@;
    if text::has_prefix(err_text, head) && text::has_suffix(err_text.skip(head.len() as int), "'"@) {
        Some(err_text.skip(head.len() as int).take(err_text.len() - head.len() - "'"@.len()))
    } else {
        None
    }
}

/// How to correct an action, where the error is one that can be corrected.
pub open spec fn correction(
    action: JsonView,
    err_text: Seq<char>,
    role: Seq<char>,
) -> Option<Seq<char>> {
    if text::has_text(err_text, "unsupported action"@) {
        Some(
            unsupported_correction(
                match json::text_field(action, "action"@) {
                    Some(kind) => kind,
                    None => "unknown"@,
                },
            ),
        )
    } else {
        match missing_field_of(err_text) {
            Some(field) => Some(message_correction(field, role)),
            None => if text::has_text(err_text, "message missing object payload"@) {
                Some(message_correction("payload"@, role))
            } else {
                None
            },
        }
    }
}

/// How to correct an action, where the error is one that can be corrected.
pub fn corrective_invalid_action_prompt(action: &Json, err_text: &str, role: &str) -> (r: Option<
    String,
>)
    ensures
        text::optional(r) == correction(action@, err_text@, role@),
{
    if contains(err_text, "unsupported action") {
        let kind = match get_text(action, "action") {
            Some(kind) => kind,
            None => "unknown",
        };
        return Some(unsupported_action_correction(kind));
    }
    match strip_prefix(err_text, "message missing non-empty '") {
        Some(rest) => match strip_suffix(rest.as_str(), "'") {
            Some(field) => {
                return Some(message_schema_correction(field.as_str(), role));
            },
            None => {},
        },
        None => {},
    }
    if contains(err_text, "message missing object payload") {
        return Some(message_schema_correction("payload", role));
    }
    None
}

// ---------------------------------------------------------------------------
// Expected fields and examples
// ---------------------------------------------------------------------------

/// The fields that an action of a kind has to have.
pub open spec fn expected_fields_of(kind: Seq<char>) -> Seq<Seq<char>> {
    if kind == "run_command"@ {
        seq!["action"@, "cmd"@, "rationale"@, "predicted_next_actions"@]
    } else if kind == "read_file"@ {
        seq!["action"@, "path"@, "rationale"@, "predicted_next_actions"@]
    } else if kind == "rename_symbol"@ {
        seq![
            "action"@,
            "old_symbol"@,
            "new_symbol"@,
            "question"@,
            "rationale"@,
            "predicted_next_actions"@,
        ]
    } else if kind == "apply_patch"@ {
        seq!["action"@, "patch"@, "question"@, "rationale"@, "predicted_next_actions"@]
    } else if kind == "cargo_test"@ {
        seq!["action"@, "crate"@, "rationale"@, "predicted_next_actions"@]
    } else if kind == "python"@ {
        seq!["action"@, "code"@, "rationale"@, "predicted_next_actions"@]
    } else if kind == "plan"@ {
        seq!["action"@, "op"@, "question"@, "rationale"@, "predicted_next_actions"@]
    } else if kind == "objectives"@ || kind == "issue"@ {
        seq!["action"@, "question"@, "rationale"@, "predicted_next_actions"@]
    } else if kind == "message"@ {
        seq![
            "action"@,
            "from"@,
            "to"@,
            "type"@,
            "status"@,
            "payload"@,
            "rationale"@,
            "predicted_next_actions"@,
        ]
    } else {
        seq!["action"@, "rationale"@, "predicted_next_actions"@]
    }
}

fn owned(names: Vec<&str>) -> (r: Vec<String>)
    ensures
        text::texts(r@) == names@.map_values(|n: &str| n@),
{
    let mut out: Vec<String> = Vec::new();
    let mut i: usize = 0;
    while i < names.len()
        invariant
            i <= names@.len(),
            out@.len() == i,
            forall|k: int| 0 <= k < i ==> (#[trigger] out@[k])@ == names@[k]@,
        decreases names@.len() - i,
    {
        out.push(names[i].to_owned());
        i += 1;
    }
    assert(text::texts(out@) =~= names@.map_values(|n: &str| n@));
    out
}

/// The fields that an action of a kind has to have.
pub fn invalid_action_expected_fields(kind: &str) -> (r: Vec<String>)
    ensures
        text::texts(r@) == expected_fields_of(kind@),
{
    let names: Vec<&str> = if same(kind, "run_command") {
        vec!["action", "cmd", "rationale", "predicted_next_actions"]
    } else if same(kind, "read_file") {
        vec!["action", "path", "rationale", "predicted_next_actions"]
    } else if same(kind, "rename_symbol") {
        vec![
            "action",
            "old_symbol",
            "new_symbol",
            "question",
            "rationale",
            "predicted_next_actions",
        ]
    } else if same(kind, "apply_patch") {
        vec!["action", "patch", "question", "rationale", "predicted_next_actions"]
    } else if same(kind, "cargo_test") {
        vec!["action", "crate", "rationale", "predicted_next_actions"]
    } else if same(kind, "python") {
        vec!["action", "code", "rationale", "predicted_next_actions"]
    } else if same(kind, "plan") {
        vec!["action", "op", "question", "rationale", "predicted_next_actions"]
    } else if same(kind, "objectives") || same(kind, "issue") {
        vec!["action", "question", "rationale", "predicted_next_actions"]
    } else if same(kind, "message") {
        vec![
            "action",
            "from",
            "to",
            "type",
            "status",
            "payload",
            "rationale",
            "predicted_next_actions",
        ]
    } else {
        vec!["action", "rationale", "predicted_next_actions"]
    };
    let ghost want = expected_fields_of(kind@);
    assert(names@.map_values(|n: &str| n@) =~= want);
    owned(names)
}

/// A file to be read next.
pub open spec fn example_read_prediction_view() -> JsonView {
    JsonView::Object(
        json::no_members().push(
            ("action"@, JsonView::Text("read_file"@)),
        ).push(
            ("intent"@, JsonView::Text("Inspect the relevant source before making changes."@)),
        ),
    )
}

/// A file to be read next.
pub fn example_read_prediction() -> (r: Json)
    ensures
        r@ == example_read_prediction_view(),
{
    let ms = members();
    let ms = and(ms, "action", string("read_file"));
    let ms = and(ms, "intent", string("Inspect the relevant source before making changes."));
    object(ms)
}

/// A command to be run next.
pub open spec fn example_command_prediction_view() -> JsonView {
    JsonView::Object(
        json::no_members().push(
            ("action"@, JsonView::Text("run_command"@)),
        ).push(
            ("intent"@, JsonView::Text("Verify the current workspace state after the read."@)),
        ),
    )
}

/// A command to be run next.
pub fn example_command_prediction() -> (r: Json)
    ensures
        r@ == example_command_prediction_view(),
{
    let ms = members();
    let ms = and(ms, "action", string("run_command"));
    let ms = and(ms, "intent", string("Verify the current workspace state after the read."));
    object(ms)
}

/// Two actions that may come next.
pub open spec fn example_predicted_next_actions_view() -> JsonView {
    JsonView::Array(seq![example_read_prediction_view(), example_command_prediction_view()])
}

/// Two actions that may come next.
pub fn example_predicted_next_actions() -> (r: Json)
    ensures
        r@ == example_predicted_next_actions_view(),
{
    let mut items: Vec<Json> = Vec::new();
    items.push(example_read_prediction());
    items.push(example_command_prediction());
    let r = array(items);
    assert(r@->Array_0 =~= example_predicted_next_actions_view()->Array_0);
    r
}

/// An example of the action `run_command`.
pub open spec fn example_run_command_view() -> JsonView {
    JsonView::Object(
        json::no_members().push(
            ("action"@, JsonView::Text("run_command"@)),
        ).push(
            ("cmd"@, JsonView::Text("rg -n \"pattern\" src/"@)),
        ).push(
            ("observation"@, JsonView::Text("Search for the relevant code."@)),
        ).push(
            ("predicted_next_actions"@, example_predicted_next_actions_view()),
        ).push(
            ("rationale"@, JsonView::Text("Locate the target before patching."@)),
        ),
    )
}

/// An example of the action `run_command`.
pub fn example_run_command() -> (r: Json)
    ensures
        r@ == example_run_command_view(),
{
    let ms = members();
    let ms = and(ms, "action", string("run_command"));
    let ms = and(ms, "cmd", string("rg -n \"pattern\" src/"));
    let ms = and(ms, "observation", string("Search for the relevant code."));
    let ms = and(ms, "predicted_next_actions", example_predicted_next_actions());
    let ms = and(ms, "rationale", string("Locate the target before patching."));
    object(ms)
}

/// An example of the action `read_file`.
pub open spec fn example_read_file_view() -> JsonView {
    JsonView::Object(
        json::no_members().push(
            ("action"@, JsonView::Text("read_file"@)),
        ).push(
            ("observation"@, JsonView::Text("Read the file for context."@)),
        ).push(
            ("path"@, JsonView::Text("src/lib.rs"@)),
        ).push(
            ("predicted_next_actions"@, example_predicted_next_actions_view()),
        ).push(
            ("rationale"@, JsonView::Text("Need context before editing."@)),
        ),
    )
}

/// An example of the action `read_file`.
pub fn example_read_file() -> (r: Json)
    ensures
        r@ == example_read_file_view(),
{
    let ms = members();
    let ms = and(ms, "action", string("read_file"));
    let ms = and(ms, "observation", string("Read the file for context."));
    let ms = and(ms, "path", string("src/lib.rs"));
    let ms = and(ms, "predicted_next_actions", example_predicted_next_actions());
    let ms = and(ms, "rationale", string("Need context before editing."));
    object(ms)
}

/// An example of the action `list_dir`.
pub open spec fn example_list_dir_view() -> JsonView {
    JsonView::Object(
        json::no_members().push(
            ("action"@, JsonView::Text("list_dir"@)),
        ).push(
            ("observation"@, JsonView::Text("List workspace files."@)),
        ).push(
            ("path"@, JsonView::Text("."@)),
        ).push(
            ("predicted_next_actions"@, example_predicted_next_actions_view()),
        ).push(
            ("rationale"@, JsonView::Text("Locate the target before acting."@)),
        ),
    )
}

/// An example of the action `list_dir`.
pub fn example_list_dir() -> (r: Json)
    ensures
        r@ == example_list_dir_view(),
{
    let ms = members();
    let ms = and(ms, "action", string("list_dir"));
    let ms = and(ms, "observation", string("List workspace files."));
    let ms = and(ms, "path", string("."));
    let ms = and(ms, "predicted_next_actions", example_predicted_next_actions());
    let ms = and(ms, "rationale", string("Locate the target before acting."));
    object(ms)
}

/// An example of the action `apply_patch`.
pub open spec fn example_apply_patch_view() -> JsonView {
    JsonView::Object(
        json::no_members().push(
            ("action"@, JsonView::Text("apply_patch"@)),
        ).push(
            ("observation"@, JsonView::Text("Apply the requested change."@)),
        ).push(
            ("patch"@, JsonView::Text("*** Begin Patch\n*** Update File: path/to/file.rs\n@@\n- old\n+ new\n*** End Patch"@)),
        ).push(
            ("predicted_next_actions"@, example_predicted_next_actions_view()),
        ).push(
            ("rationale"@, JsonView::Text("Implement the edit directly."@)),
        ),
    )
}

/// An example of the action `apply_patch`.
pub fn example_apply_patch() -> (r: Json)
    ensures
        r@ == example_apply_patch_view(),
{
    let ms = members();
    let ms = and(ms, "action", string("apply_patch"));
    let ms = and(ms, "observation", string("Apply the requested change."));
    let ms = and(ms, "patch", string("*** Begin Patch\n*** Update File: path/to/file.rs\n@@\n- old\n+ new\n*** End Patch"));
    let ms = and(ms, "predicted_next_actions", example_predicted_next_actions());
    let ms = and(ms, "rationale", string("Implement the edit directly."));
    object(ms)
}

/// An example of the action `python`.
pub open spec fn example_python_view() -> JsonView {
    JsonView::Object(
        json::no_members().push(
            ("action"@, JsonView::Text("python"@)),
        ).push(
            ("code"@, JsonView::Text("print('analysis')"@)),
        ).push(
            ("observation"@, JsonView::Text("Run structured analysis."@)),
        ).push(
            ("predicted_next_actions"@, example_predicted_next_actions_view()),
        ).push(
            ("rationale"@, JsonView::Text("Use Python for parsing tasks."@)),
        ),
    )
}

/// An example of the action `python`.
pub fn example_python() -> (r: Json)
    ensures
        r@ == example_python_view(),
{
    let ms = members();
    let ms = and(ms, "action", string("python"));
    let ms = and(ms, "code", string("print('analysis')"));
    let ms = and(ms, "observation", string("Run structured analysis."));
    let ms = and(ms, "predicted_next_actions", example_predicted_next_actions());
    let ms = and(ms, "rationale", string("Use Python for parsing tasks."));
    object(ms)
}

/// An example of the action `symbols_index`.
pub open spec fn example_symbols_index_view() -> JsonView {
    JsonView::Object(
        json::no_members().push(
            ("action"@, JsonView::Text("symbols_index"@)),
        ).push(
            ("observation"@, JsonView::Text("Build deterministic symbol inventory."@)),
        ).push(
            ("out"@, JsonView::Text("state/symbols.json"@)),
        ).push(
            ("path"@, JsonView::Text("src"@)),
        ).push(
            ("predicted_next_actions"@, example_predicted_next_actions_view()),
        ).push(
            ("rationale"@, JsonView::Text("Need a unique sorted symbols catalog before rename/refactor planning."@)),
        ),
    )
}

/// An example of the action `symbols_index`.
pub fn example_symbols_index() -> (r: Json)
    ensures
        r@ == example_symbols_index_view(),
{
    let ms = members();
    let ms = and(ms, "action", string("symbols_index"));
    let ms = and(ms, "observation", string("Build deterministic symbol inventory."));
    let ms = and(ms, "out", string("state/symbols.json"));
    let ms = and(ms, "path", string("src"));
    let ms = and(ms, "predicted_next_actions", example_predicted_next_actions());
    let ms = and(ms, "rationale", string("Need a unique sorted symbols catalog before rename/refactor planning."));
    object(ms)
}

/// An example of the action `symbols_rename_candidates`.
pub open spec fn example_symbols_rename_candidates_view() -> JsonView {
    JsonView::Object(
        json::no_members().push(
            ("action"@, JsonView::Text("symbols_rename_candidates"@)),
        ).push(
            ("observation"@, JsonView::Text("Derive deterministic rename candidates from symbol inventory."@)),
        ).push(
            ("out"@, JsonView::Text("state/rename_candidates.json"@)),
        ).push(
            ("predicted_next_actions"@, example_predicted_next_actions_view()),
        ).push(
            ("rationale"@, JsonView::Text("Prioritize naming cleanup before direct symbol mutation."@)),
        ).push(
            ("symbols_path"@, JsonView::Text("state/symbols.json"@)),
        ),
    )
}

/// An example of the action `symbols_rename_candidates`.
pub fn example_symbols_rename_candidates() -> (r: Json)
    ensures
        r@ == example_symbols_rename_candidates_view(),
{
    let ms = members();
    let ms = and(ms, "action", string("symbols_rename_candidates"));
    let ms = and(ms, "observation", string("Derive deterministic rename candidates from symbol inventory."));
    let ms = and(ms, "out", string("state/rename_candidates.json"));
    let ms = and(ms, "predicted_next_actions", example_predicted_next_actions());
    let ms = and(ms, "rationale", string("Prioritize naming cleanup before direct symbol mutation."));
    let ms = and(ms, "symbols_path", string("state/symbols.json"));
    object(ms)
}

/// An example of the action `symbols_prepare_rename`.
pub open spec fn example_symbols_prepare_rename_view() -> JsonView {
    JsonView::Object(
        json::no_members().push(
            ("action"@, JsonView::Text("symbols_prepare_rename"@)),
        ).push(
            ("candidates_path"@, JsonView::Text("state/rename_candidates.json"@)),
        ).push(
            ("index"@, JsonView::Uint(0)),
        ).push(
            ("observation"@, JsonView::Text("Select the top rename candidate."@)),
        ).push(
            ("out"@, JsonView::Text("state/next_rename_action.json"@)),
        ).push(
            ("predicted_next_actions"@, example_predicted_next_actions_view()),
        ).push(
            ("rationale"@, JsonView::Text("Prepare a concrete rename_symbol payload before mutation."@)),
        ),
    )
}

/// An example of the action `symbols_prepare_rename`.
pub fn example_symbols_prepare_rename() -> (r: Json)
    ensures
        r@ == example_symbols_prepare_rename_view(),
{
    let ms = members();
    let ms = and(ms, "action", string("symbols_prepare_rename"));
    let ms = and(ms, "candidates_path", string("state/rename_candidates.json"));
    let ms = and(ms, "index", number(0));
    let ms = and(ms, "observation", string("Select the top rename candidate."));
    let ms = and(ms, "out", string("state/next_rename_action.json"));
    let ms = and(ms, "predicted_next_actions", example_predicted_next_actions());
    let ms = and(ms, "rationale", string("Prepare a concrete rename_symbol payload before mutation."));
    object(ms)
}

/// An example of the action `rename_symbol`.
pub open spec fn example_rename_symbol_view() -> JsonView {
    JsonView::Object(
        json::no_members().push(
            ("action"@, JsonView::Text("rename_symbol"@)),
        ).push(
            ("new_symbol"@, JsonView::Text("tools::handle_master_plan_action"@)),
        ).push(
            ("observation"@, JsonView::Text("Span-backed rename should update all references consistently."@)),
        ).push(
            ("old_symbol"@, JsonView::Text("tools::handle_plan_action"@)),
        ).push(
            ("predicted_next_actions"@, example_predicted_next_actions_view()),
        ).push(
            ("question"@, JsonView::Text("Is this the exact symbol to rename across the crate?"@)),
        ).push(
            ("rationale"@, JsonView::Text("Perform a deterministic symbol rename using rustc graph spans."@)),
        ),
    )
}

/// An example of the action `rename_symbol`.
pub fn example_rename_symbol() -> (r: Json)
    ensures
        r@ == example_rename_symbol_view(),
{
    let ms = members();
    let ms = and(ms, "action", string("rename_symbol"));
    let ms = and(ms, "new_symbol", string("tools::handle_master_plan_action"));
    let ms = and(ms, "observation", string("Span-backed rename should update all references consistently."));
    let ms = and(ms, "old_symbol", string("tools::handle_plan_action"));
    let ms = and(ms, "predicted_next_actions", example_predicted_next_actions());
    let ms = and(ms, "question", string("Is this the exact symbol to rename across the crate?"));
    let ms = and(ms, "rationale", string("Perform a deterministic symbol rename using rustc graph spans."));
    object(ms)
}

/// An example of the action `cargo_test`.
pub open spec fn example_cargo_test_view() -> JsonView {
    JsonView::Object(
        json::no_members().push(
            ("action"@, JsonView::Text("cargo_test"@)),
        ).push(
            ("crate"@, JsonView::Text("canon-mini-agent"@)),
        ).push(
            ("observation"@, JsonView::Text("Run the targeted test."@)),
        ).push(
            ("predicted_next_actions"@, example_predicted_next_actions_view()),
        ).push(
            ("rationale"@, JsonView::Text("Verify the change."@)),
        ).push(
            ("test"@, JsonView::Text("optional_test_name"@)),
        ),
    )
}

/// An example of the action `cargo_test`.
pub fn example_cargo_test() -> (r: Json)
    ensures
        r@ == example_cargo_test_view(),
{
    let ms = members();
    let ms = and(ms, "action", string("cargo_test"));
    let ms = and(ms, "crate", string("canon-mini-agent"));
    let ms = and(ms, "observation", string("Run the targeted test."));
    let ms = and(ms, "predicted_next_actions", example_predicted_next_actions());
    let ms = and(ms, "rationale", string("Verify the change."));
    let ms = and(ms, "test", string("optional_test_name"));
    object(ms)
}

/// A task to be created.
pub open spec fn example_task_view() -> JsonView {
    JsonView::Object(
        json::no_members().push(
            ("id"@, JsonView::Text("T4"@)),
        ).push(
            ("priority"@, JsonView::Uint(3)),
        ).push(
            ("status"@, JsonView::Text("todo"@)),
        ).push(
            ("title"@, JsonView::Text("Add plan DAG"@)),
        ),
    )
}

/// A task to be created.
pub fn example_task() -> (r: Json)
    ensures
        r@ == example_task_view(),
{
    let ms = members();
    let ms = and(ms, "id", string("T4"));
    let ms = and(ms, "priority", number(3));
    let ms = and(ms, "status", string("todo"));
    let ms = and(ms, "title", string("Add plan DAG"));
    object(ms)
}

/// An example of the action `plan`.
pub open spec fn example_plan_view() -> JsonView {
    JsonView::Object(
        json::no_members().push(
            ("action"@, JsonView::Text("plan"@)),
        ).push(
            ("observation"@, JsonView::Text("Planning update needed."@)),
        ).push(
            ("op"@, JsonView::Text("create_task"@)),
        ).push(
            ("predicted_next_actions"@, example_predicted_next_actions_view()),
        ).push(
            ("rationale"@, JsonView::Text("Track work in PLAN.json via plan tool."@)),
        ).push(
            ("task"@, example_task_view()),
        ),
    )
}

/// An example of the action `plan`.
pub fn example_plan() -> (r: Json)
    ensures
        r@ == example_plan_view(),
{
    let ms = members();
    let ms = and(ms, "action", string("plan"));
    let ms = and(ms, "observation", string("Planning update needed."));
    let ms = and(ms, "op", string("create_task"));
    let ms = and(ms, "predicted_next_actions", example_predicted_next_actions());
    let ms = and(ms, "rationale", string("Track work in PLAN.json via plan tool."));
    let ms = and(ms, "task", example_task());
    object(ms)
}

/// The payload of a message that reports a blocker.
pub open spec fn example_blocker_payload_view() -> JsonView {
    JsonView::Object(
        json::no_members().push(
            ("blocker"@, JsonView::Text("Root cause"@)),
        ).push(
            ("evidence"@, JsonView::Text("Concrete error text or failing command"@)),
        ).push(
            ("required_action"@, JsonView::Text("What must be done to unblock"@)),
        ).push(
            ("severity"@, JsonView::Text("error"@)),
        ).push(
            ("summary"@, JsonView::Text("Short blocker summary"@)),
        ),
    )
}

/// The payload of a message that reports a blocker.
pub fn example_blocker_payload() -> (r: Json)
    ensures
        r@ == example_blocker_payload_view(),
{
    let ms = members();
    let ms = and(ms, "blocker", string("Root cause"));
    let ms = and(ms, "evidence", string("Concrete error text or failing command"));
    let ms = and(ms, "required_action", string("What must be done to unblock"));
    let ms = and(ms, "severity", string("error"));
    let ms = and(ms, "summary", string("Short blocker summary"));
    object(ms)
}

/// The payload of any other message.
pub open spec fn example_summary_payload_view() -> JsonView {
    JsonView::Object(
        json::no_members().push(
            ("summary"@, JsonView::Text("Short summary"@)),
        ),
    )
}

/// The payload of any other message.
pub fn example_summary_payload() -> (r: Json)
    ensures
        r@ == example_summary_payload_view(),
{
    let ms = members();
    let ms = and(ms, "summary", string("Short summary"));
    object(ms)
}

/// The payload of a message of a type and a status.
pub open spec fn example_message_payload_view(msg_type: Seq<char>, status: Seq<char>) -> JsonView {
    if msg_type == "blocker"@ || status == "blocked"@ {
        example_blocker_payload_view()
    } else {
        example_summary_payload_view()
    }
}

/// The payload of a message of a type and a status.
pub fn example_message_payload(msg_type: &str, status: &str) -> (r: Json)
    ensures
        r@ == example_message_payload_view(msg_type@, status@),
{
    if same(msg_type, "blocker") || same(status, "blocked") {
        example_blocker_payload()
    } else {
        example_summary_payload()
    }
}

/// An example of the action `message`.
pub open spec fn example_message_action_view(from: Seq<char>, to_role: Seq<char>, msg_type: Seq<char>, status: Seq<char>) -> JsonView {
    JsonView::Object(
        json::no_members().push(
            ("action"@, JsonView::Text("message"@)),
        ).push(
            ("from"@, JsonView::Text(from)),
        ).push(
            ("observation"@, JsonView::Text("Summarize what happened."@)),
        ).push(
            ("payload"@, example_message_payload_view(msg_type, status)),
        ).push(
            ("predicted_next_actions"@, example_predicted_next_actions_view()),
        ).push(
            ("rationale"@, JsonView::Text("Explain why this is the next step."@)),
        ).push(
            ("status"@, JsonView::Text(status)),
        ).push(
            ("to"@, JsonView::Text(to_role)),
        ).push(
            ("type"@, JsonView::Text(msg_type)),
        ),
    )
}

/// An example of the action `message`.
pub fn example_message_action(from: &str, to_role: &str, msg_type: &str, status: &str) -> (r: Json)
    ensures
        r@ == example_message_action_view(from@, to_role@, msg_type@, status@),
{
    let ms = members();
    let ms = and(ms, "action", string("message"));
    let ms = and(ms, "from", string(from));
    let ms = and(ms, "observation", string("Summarize what happened."));
    let ms = and(ms, "payload", example_message_payload(msg_type, status));
    let ms = and(ms, "predicted_next_actions", example_predicted_next_actions());
    let ms = and(ms, "rationale", string("Explain why this is the next step."));
    let ms = and(ms, "status", string(status));
    let ms = and(ms, "to", string(to_role));
    let ms = and(ms, "type", string(msg_type));
    object(ms)
}

/// The example of an action of a kind. Messages take their route from the action
/// that was given, else from the role.
pub open spec fn example_view(
    kind: Seq<char>,
    role: Seq<char>,
    raw_action: Option<JsonView>,
) -> JsonView {
    if kind == "message"@ {
        let route = example_route(raw_action, role);
        example_message_action_view(route.from, route.to_role, route.msg_type, route.status)
    } else if kind == "run_command"@ {
        example_run_command_view()
    } else if kind == "read_file"@ {
        example_read_file_view()
    } else if kind == "list_dir"@ {
        example_list_dir_view()
    } else if kind == "apply_patch"@ {
        example_apply_patch_view()
    } else if kind == "python"@ {
        example_python_view()
    } else if kind == "symbols_index"@ {
        example_symbols_index_view()
    } else if kind == "symbols_rename_candidates"@ {
        example_symbols_rename_candidates_view()
    } else if kind == "symbols_prepare_rename"@ {
        example_symbols_prepare_rename_view()
    } else if kind == "rename_symbol"@ {
        example_rename_symbol_view()
    } else if kind == "cargo_test"@ {
        example_cargo_test_view()
    } else if kind == "plan"@ {
        example_plan_view()
    } else {
        example_message_action_view("executor"@, "verifier"@, "handoff"@, "complete"@)
    }
}

/// The example of an action of a kind.
pub fn example_action_for(kind: &str, role: &str, raw_action: Option<&Json>) -> (r: Json)
    ensures
        r@ == example_view(kind@, role@, shown(raw_action)),
{
    if same(kind, "message") {
        let route = normalized_message_example_route(raw_action, role);
        example_message_action(
            route.from.as_str(),
            route.to_role.as_str(),
            route.msg_type.as_str(),
            route.status.as_str(),
        )
    } else if same(kind, "run_command") {
        example_run_command()
    } else if same(kind, "read_file") {
        example_read_file()
    } else if same(kind, "list_dir") {
        example_list_dir()
    } else if same(kind, "apply_patch") {
        example_apply_patch()
    } else if same(kind, "python") {
        example_python()
    } else if same(kind, "symbols_index") {
        example_symbols_index()
    } else if same(kind, "symbols_rename_candidates") {
        example_symbols_rename_candidates()
    } else if same(kind, "symbols_prepare_rename") {
        example_symbols_prepare_rename()
    } else if same(kind, "rename_symbol") {
        example_rename_symbol()
    } else if same(kind, "cargo_test") {
        example_cargo_test()
    } else if same(kind, "plan") {
        example_plan()
    } else {
        example_message_action("executor", "verifier", "handoff", "complete")
    }
}

// ---------------------------------------------------------------------------
// Differences from the schema
// ---------------------------------------------------------------------------

/// The messages with one more, unless it is already among them.
pub open spec fn with_unique(diff: Seq<Seq<char>>, msg: Seq<char>) -> Seq<Seq<char>> {
    if diff.contains(msg) {
        diff
    } else {
        diff.push(msg)
    }
}

/// The messages with one more where `b` holds, unless it is already among them.
pub open spec fn with_unique_if(diff: Seq<Seq<char>>, b: bool, msg: Seq<char>) -> Seq<Seq<char>> {
    if b {
        with_unique(diff, msg)
    } else {
        diff
    }
}

/// Adds a message that is not yet there.
pub fn add_unique_schema_diff(schema_diff: &mut Vec<String>, msg: &str)
    ensures
        text::texts(final(schema_diff)@) == with_unique(text::texts(old(schema_diff)@), msg@),
{
    let ghost all = text::texts(schema_diff@);
    let mut i: usize = 0;
    while i < schema_diff.len()
        invariant
            i <= schema_diff@.len(),
            schema_diff@ == old(schema_diff)@,
            all == text::texts(schema_diff@),
            forall|k: int| 0 <= k < i ==> all[k] != msg@,
        decreases schema_diff@.len() - i,
    {
        if same(schema_diff[i].as_str(), msg) {
            assert(all[i as int] == msg@);
            return;
        }
        i += 1;
    }
    schema_diff.push(msg.to_owned());
    assert(text::texts(schema_diff@) =~= all.push(msg@));
}

fn add_unique_if(schema_diff: &mut Vec<String>, b: bool, msg: &str)
    ensures
        text::texts(final(schema_diff)@) == with_unique_if(
            text::texts(old(schema_diff)@),
            b,
            msg@,
        ),
{
    if b {
        add_unique_schema_diff(schema_diff, msg);
    }
}

/// A field of the wrong type.
pub open spec fn type_mismatch(field: Seq<char>) -> Seq<char> {
    "field type mismatch: "@ + field + " (expected string)"@
}

fn write_type_mismatch(field: &str) -> (r: String)
    ensures
        r@ == type_mismatch(field@),
{
    let mut t = "field type mismatch: ".to_owned();
    t.append(field);
    t.append(" (expected string)");
    t
}

/// A field that is missing.
pub open spec fn missing(field: Seq<char>) -> Seq<char> {
    "missing field: "@ + field
}

fn write_missing(field: &str) -> (r: String)
    ensures
        r@ == missing(field@),
{
    let mut t = "missing field: ".to_owned();
    t.append(field);
    t
}

/// Whether a value is there and is no text.
pub open spec fn no_text(v: Option<JsonView>) -> bool {
    v is Some && !(v->0 is Text)
}

/// Whether a value is a text that is not blank.
pub open spec fn filled_text(v: Option<JsonView>) -> bool {
    v matches Some(JsonView::Text(t)) && !text::blank(t)
}

/// Whether a value is a blank text.
pub open spec fn blank_text(v: Option<JsonView>) -> bool {
    v matches Some(JsonView::Text(t)) && text::blank(t)
}

fn is_no_text(v: Option<&Json>) -> (r: bool)
    ensures
        r == no_text(shown(v)),
{
    match v {
        Some(Json::Text(_)) => false,
        Some(_) => true,
        None => false,
    }
}

fn is_filled_text(v: Option<&Json>) -> (r: bool)
    ensures
        r == filled_text(shown(v)),
{
    match v {
        Some(Json::Text(t)) => !is_blank(t.as_str()),
        _ => false,
    }
}

fn is_blank_text(v: Option<&Json>) -> (r: bool)
    ensures
        r == blank_text(shown(v)),
{
    match v {
        Some(Json::Text(t)) => is_blank(t.as_str()),
        _ => false,
    }
}

/// The field that holds what an action of a kind works on.
pub open spec fn subject_field(kind: Seq<char>) -> Option<Seq<char>> {
    if kind == "run_command"@ {
        Some("cmd"@)
    } else if kind == "read_file"@ {
        Some("path"@)
    } else if kind == "apply_patch"@ {
        Some("patch"@)
    } else if kind == "python"@ {
        Some("code"@)
    } else if kind == "cargo_test"@ {
        Some("crate"@)
    } else {
        None
    }
}

fn subject_field_of(kind: &str) -> (r: Option<&'static str>)
    ensures
        text::optional_ref(r) == subject_field(kind@),
{
    if same(kind, "run_command") {
        Some("cmd")
    } else if same(kind, "read_file") {
        Some("path")
    } else if same(kind, "apply_patch") {
        Some("patch")
    } else if same(kind, "python") {
        Some("code")
    } else if same(kind, "cargo_test") {
        Some("crate")
    } else {
        None
    }
}

/// What is said of a field of an action that has to hold a text.
pub open spec fn with_string_field(
    diff: Seq<Seq<char>>,
    action: JsonView,
    field: Seq<char>,
) -> Seq<Seq<char>> {
    match json::field(action, field) {
        Some(JsonView::Text(t)) => with_unique_if(diff, text::blank(t), missing(field)),
        Some(_) => with_unique(diff, type_mismatch(field)),
        None => with_unique(diff, missing(field)),
    }
}

/// Says what is wrong with a field of an action that has to hold a text.
pub fn push_missing_string_object_field(schema_diff: &mut Vec<String>, action: &Json, field: &str)
    ensures
        text::texts(final(schema_diff)@) == with_string_field(
            text::texts(old(schema_diff)@),
            action@,
            field@,
        ),
{
    match get(action, field) {
        Some(Json::Text(t)) => {
            add_unique_if(schema_diff, is_blank(t.as_str()), write_missing(field).as_str());
        },
        Some(_) => {
            add_unique_schema_diff(schema_diff, write_type_mismatch(field).as_str());
        },
        None => {
            add_unique_schema_diff(schema_diff, write_missing(field).as_str());
        },
    }
}

/// What is said of any action. `scope_error` is what the patch of the action, if it
/// has one, breaks.
pub open spec fn general_diff(
    diff: Seq<Seq<char>>,
    action: JsonView,
    kind: Seq<char>,
    scope_error: Option<Seq<char>>,
) -> Seq<Seq<char>> {
    let d1 = with_unique_if(diff, no_text(json::field(action, "action"@)), type_mismatch("action"@));
    let rationale = json::field(action, "rationale"@);
    let d2 = with_unique_if(d1, blank_text(rationale), missing("rationale"@));
    let d3 = with_unique_if(d2, no_text(rationale), type_mismatch("rationale"@));
    let d4 = with_unique_if(
        d3,
        no_text(json::field(action, "observation"@)),
        type_mismatch("observation"@),
    );
    let d5 = match scope_error {
        Some(e) => with_unique_if(
            d4,
            kind == "apply_patch"@ && json::text_field(action, "patch"@) is Some,
            e,
        ),
        None => d4,
    };
    let unknown = !filled_text(json::field(action, "action"@));
    let d6 = with_unique_if(d5, unknown, missing("action"@));
    let d7 = with_unique_if(d6, unknown, "unsupported action: missing or unknown action"@);
    match subject_field(kind) {
        Some(field) => with_string_field(d7, action, field),
        None => d7,
    }
}

/// Says what is wrong with any action.
pub fn collect_general_action_schema_diff(
    schema_diff: &mut Vec<String>,
    action: &Json,
    kind: &str,
    scope_error: &Option<String>,
)
    ensures
        text::texts(final(schema_diff)@) == general_diff(
            text::texts(old(schema_diff)@),
            action@,
            kind@,
            text::optional(*scope_error),
        ),
{
    let name = get(action, "action");
    add_unique_if(schema_diff, is_no_text(name), write_type_mismatch("action").as_str());
    let rationale = get(action, "rationale");
    add_unique_if(schema_diff, is_blank_text(rationale), write_missing("rationale").as_str());
    add_unique_if(schema_diff, is_no_text(rationale), write_type_mismatch("rationale").as_str());
    let observation = get(action, "observation");
    add_unique_if(
        schema_diff,
        is_no_text(observation),
        write_type_mismatch("observation").as_str(),
    );
    match scope_error {
        Some(e) => {
            let scoped = same(kind, "apply_patch") && get_text(action, "patch").is_some();
            add_unique_if(schema_diff, scoped, e.as_str());
        },
        None => {},
    }
    let unknown = !is_filled_text(name);
    add_unique_if(schema_diff, unknown, write_missing("action").as_str());
    add_unique_if(schema_diff, unknown, "unsupported action: missing or unknown action");
    match subject_field_of(kind) {
        Some(field) => {
            push_missing_string_object_field(schema_diff, action, field);
        },
        None => {},
    }
}

/// The text under a key, empty where there is none.
pub open spec fn text_or_empty(action: JsonView, key: Seq<char>) -> Seq<char> {
    match json::text_field(action, key) {
        Some(t) => t,
        None => ""@,
    }
}

fn get_text_or_empty<'a>(action: &'a Json, key: &str) -> (r: &'a str)
    ensures
        r@ == text_or_empty(action@, key@),
{
    match get_text(action, key) {
        Some(t) => t,
        None => "",
    }
}

/// Whether a plan of a planner speaks of diagnostics without naming what was seen
/// in the source.
pub open spec fn unvalidated_plan(action: JsonView, role: Seq<char>, kind: Seq<char>) -> bool {
    let said = text::lower_ascii(
        text_or_empty(action, "observation"@) + "\n"@ + text_or_empty(action, "rationale"@),
    );
    &&& kind == "plan"@
    &&& role == "planner"@ || role == "mini_planner"@
    &&& text::has_text(said, "diagnostic"@) || text::has_text(said, "stale"@) || text::has_text(
        said,
        "violation"@,
    )
    &&& !(text::has_text(said, "read_file"@) || text::has_text(said, "source"@) || text::has_text(
        said,
        "verified"@,
    ) || text::has_text(said, "current-cycle"@) || text::has_text(said, "rg "@) || text::has_text(
        said,
        "run_command"@,
    ))
}

/// What is said of such a plan.
pub open spec fn plan_validation_message() -> Seq<char> {
    "planner plan actions that rely on diagnostics must cite current source validation in observation/rationale (for example read_file, run_command, or verified source evidence)"@
}

/// Says where a plan relies on diagnostics alone.
pub fn maybe_push_planner_plan_diagnostics_error(
    schema_diff: &mut Vec<String>,
    action: &Json,
    role: &str,
    kind: &str,
)
    ensures
        text::texts(final(schema_diff)@) == with_unique_if(
            text::texts(old(schema_diff)@),
            unvalidated_plan(action@, role@, kind@),
            plan_validation_message(),
        ),
{
    if !same(kind, "plan") || !(same(role, "planner") || same(role, "mini_planner")) {
        return;
    }
    let mut said = get_text_or_empty(action, "observation").to_owned();
    said.append("\n");
    said.append(get_text_or_empty(action, "rationale"));
    let said = to_ascii_lower(said.as_str());
    let said = said.as_str();
    let references = contains(said, "diagnostic") || contains(said, "stale") || contains(
        said,
        "violation",
    );
    let validated = contains(said, "read_file") || contains(said, "source") || contains(
        said,
        "verified",
    ) || contains(said, "current-cycle") || contains(said, "rg ") || contains(said, "run_command");
    add_unique_if(
        schema_diff,
        references && !validated,
        "planner plan actions that rely on diagnostics must cite current source validation in observation/rationale (for example read_file, run_command, or verified source evidence)",
    );
}

/// What is said of a field of a message that has to hold a text.
pub open spec fn with_required_text(
    diff: Seq<Seq<char>>,
    action: JsonView,
    field: Seq<char>,
) -> Seq<Seq<char>> {
    with_unique_if(diff, !filled_text(json::field(action, field)), missing(field))
}

fn push_required_text(schema_diff: &mut Vec<String>, action: &Json, field: &str)
    ensures
        text::texts(final(schema_diff)@) == with_required_text(
            text::texts(old(schema_diff)@),
            action@,
            field@,
        ),
{
    let absent = !is_filled_text(get(action, field));
    add_unique_if(schema_diff, absent, write_missing(field).as_str());
}

/// What is said of the fields that each message has to have.
pub open spec fn required_diff(diff: Seq<Seq<char>>, action: JsonView) -> Seq<Seq<char>> {
    let d1 = with_required_text(diff, action, "from"@);
    let d2 = with_required_text(d1, action, "to"@);
    let d3 = with_required_text(d2, action, "type"@);
    let d4 = with_required_text(d3, action, "status"@);
    let payload = json::field(action, "payload"@);
    let d5 = with_unique_if(d4, !(payload matches Some(JsonView::Object(_))), missing("payload"@));
    let other = payload is Some && !(payload->0 is Object);
    let d6 = with_unique_if(d5, other, "payload must be object"@);
    let d7 = with_unique_if(d6, other, "field type mismatch: payload (expected object)"@);
    with_required_text(d7, action, "rationale"@)
}

/// Says which fields a message lacks.
pub fn push_missing_message_required_fields(schema_diff: &mut Vec<String>, action: &Json)
    ensures
        text::texts(final(schema_diff)@) == required_diff(text::texts(old(schema_diff)@), action@),
{
    push_required_text(schema_diff, action, "from");
    push_required_text(schema_diff, action, "to");
    push_required_text(schema_diff, action, "type");
    push_required_text(schema_diff, action, "status");
    let payload = get(action, "payload");
    let (is_object, is_other) = match payload {
        Some(Json::Object(_)) => (true, false),
        Some(_) => (false, true),
        None => (false, false),
    };
    add_unique_if(schema_diff, !is_object, write_missing("payload").as_str());
    add_unique_if(schema_diff, is_other, "payload must be object");
    add_unique_if(schema_diff, is_other, "field type mismatch: payload (expected object)");
    push_required_text(schema_diff, action, "rationale");
}

/// What is said of a part of a route that is not in lower case.
pub open spec fn with_casing(
    diff: Seq<Seq<char>>,
    action: JsonView,
    field: Seq<char>,
) -> Seq<Seq<char>> {
    match json::text_field(action, field) {
        Some(val) => with_unique_if(
            diff,
            val != text::lowercase(val),
            "role casing invalid: "@ + field + "="@ + val,
        ),
        None => diff,
    }
}

fn push_casing(schema_diff: &mut Vec<String>, action: &Json, field: &str)
    ensures
        text::texts(final(schema_diff)@) == with_casing(
            text::texts(old(schema_diff)@),
            action@,
            field@,
        ),
{
    match get_text(action, field) {
        Some(val) => {
            let mut t = "role casing invalid: ".to_owned();
            t.append(field);
            t.append("=");
            t.append(val);
            let lowered = to_lowercase(val);
            add_unique_if(schema_diff, !same(val, lowered.as_str()), t.as_str());
        },
        None => {},
    }
}

/// Whether a type is that of a blocker.
pub open spec fn blocker_type(msg_type: Option<Seq<char>>) -> bool {
    msg_type matches Some(t) && text::lower_ascii(t) == "blocker"@
}

/// Whether a status is that of a blocker.
pub open spec fn blocked_status(status: Option<Seq<char>>) -> bool {
    status matches Some(t) && text::lower_ascii(t) == "blocked"@
}

fn is_blocker_type(msg_type: Option<&str>) -> (r: bool)
    ensures
        r == blocker_type(text::optional_ref(msg_type)),
{
    match msg_type {
        Some(t) => same(to_ascii_lower(t).as_str(), "blocker"),
        None => false,
    }
}

fn is_blocked_status(status: Option<&str>) -> (r: bool)
    ensures
        r == blocked_status(text::optional_ref(status)),
{
    match status {
        Some(t) => same(to_ascii_lower(t).as_str(), "blocked"),
        None => false,
    }
}

/// The payload of a message, where it is an object.
pub open spec fn payload_of(action: JsonView) -> Option<JsonView> {
    match json::field(action, "payload"@) {
        Some(JsonView::Object(ms)) => Some(JsonView::Object(ms)),
        _ => None,
    }
}

/// The value under a key of the payload.
pub open spec fn payload_field(action: JsonView, field: Seq<char>) -> Option<JsonView> {
    match payload_of(action) {
        Some(p) => json::field(p, field),
        None => None,
    }
}

fn get_payload_field<'a>(action: &'a Json, field: &str) -> (r: Option<&'a Json>)
    ensures
        shown(r) == payload_field(action@, field@),
{
    match get(action, "payload") {
        Some(p) => {
            proof {
                json::lemma_json_view(*p);
            }
            get(p, field)
        },
        None => None,
    }
}

/// What is said of a field of the payload of a blocker.
pub open spec fn with_blocker_field(
    diff: Seq<Seq<char>>,
    action: JsonView,
    field: Seq<char>,
) -> Seq<Seq<char>> {
    let value = payload_field(action, field);
    if no_text(value) {
        with_unique(diff, type_mismatch("payload."@ + field))
    } else {
        with_unique_if(diff, !filled_text(value), "payload."@ + field + " missing"@)
    }
}

/// Says what is wrong with a field of the payload of a blocker.
pub fn push_missing_string_payload_field(
    schema_diff: &mut Vec<String>,
    action: &Json,
    field: &str,
)
    ensures
        text::texts(final(schema_diff)@) == with_blocker_field(
            text::texts(old(schema_diff)@),
            action@,
            field@,
        ),
{
    let value = get_payload_field(action, field);
    let mut name = "payload.".to_owned();
    name.append(field);
    if is_no_text(value) {
        add_unique_schema_diff(schema_diff, write_type_mismatch(name.as_str()).as_str());
    } else {
        name.append(" missing");
        add_unique_if(schema_diff, !is_filled_text(value), name.as_str());
    }
}

/// A type and a status that do not go together.
pub open spec fn mismatch(msg_type: Seq<char>, status: Seq<char>) -> Seq<char> {
    "type/status mismatch: type="@ + msg_type + " status="@ + status
}

/// What is said of a message. `message_error` is what the strict validation of
/// messages says.
pub open spec fn message_diff(
    diff: Seq<Seq<char>>,
    action: JsonView,
    message_error: Option<Seq<char>>,
) -> Seq<Seq<char>> {
    let d1 = required_diff(diff, action);
    let d2 = match message_error {
        Some(e) => with_unique(d1, e),
        None => d1,
    };
    let d3 = with_casing(d2, action, "from"@);
    let d4 = with_casing(d3, action, "to"@);
    let d5 = with_casing(d4, action, "type"@);
    let d6 = with_casing(d5, action, "status"@);
    let msg_type = json::text_field(action, "type"@);
    let status = json::text_field(action, "status"@);
    let d7 = match (msg_type, status) {
        (Some(t), Some(s)) => with_unique_if(
            d6,
            blocker_type(msg_type) != blocked_status(status),
            mismatch(t, s),
        ),
        _ => d6,
    };
    let d8 = with_unique_if(
        d7,
        !filled_text(payload_field(action, "summary"@)),
        "payload.summary missing"@,
    );
    let d9 = with_unique_if(
        d8,
        json::field(action, "blocker"@) is Some || json::field(action, "evidence"@) is Some
            || json::field(action, "required_action"@) is Some,
        "blocker fields must be inside payload: blocker/evidence/required_action"@,
    );
    if blocker_type(msg_type) || blocked_status(status) {
        let d10 = with_blocker_field(d9, action, "blocker"@);
        let d11 = with_blocker_field(d10, action, "evidence"@);
        with_blocker_field(d11, action, "required_action"@)
    } else {
        d9
    }
}

/// Says what is wrong with a message.
pub fn collect_message_schema_diff(
    schema_diff: &mut Vec<String>,
    action: &Json,
    message_error: &Option<String>,
)
    ensures
        text::texts(final(schema_diff)@) == message_diff(
            text::texts(old(schema_diff)@),
            action@,
            text::optional(*message_error),
        ),
{
    push_missing_message_required_fields(schema_diff, action);
    match message_error {
        Some(e) => {
            add_unique_schema_diff(schema_diff, e.as_str());
        },
        None => {},
    }
    push_casing(schema_diff, action, "from");
    push_casing(schema_diff, action, "to");
    push_casing(schema_diff, action, "type");
    push_casing(schema_diff, action, "status");
    let msg_type = get_text(action, "type");
    let status = get_text(action, "status");
    let is_blocker = is_blocker_type(msg_type);
    let is_blocked = is_blocked_status(status);
    match (msg_type, status) {
        (Some(t), Some(s)) => {
            let mut m = "type/status mismatch: type=".to_owned();
            m.append(t);
            m.append(" status=");
            m.append(s);
            add_unique_if(schema_diff, is_blocker != is_blocked, m.as_str());
        },
        _ => {},
    }
    let summarized = is_filled_text(get_payload_field(action, "summary"));
    add_unique_if(schema_diff, !summarized, "payload.summary missing");
    let misplaced = get(action, "blocker").is_some() || get(action, "evidence").is_some() || get(
        action,
        "required_action",
    ).is_some();
    add_unique_if(
        schema_diff,
        misplaced,
        "blocker fields must be inside payload: blocker/evidence/required_action",
    );
    if is_blocker || is_blocked {
        push_missing_string_payload_field(schema_diff, action, "blocker");
        push_missing_string_payload_field(schema_diff, action, "evidence");
        push_missing_string_payload_field(schema_diff, action, "required_action");
    }
}

// ---------------------------------------------------------------------------
// Feedback
// ---------------------------------------------------------------------------

/// What the rest of the runtime says of an action: the schema of its kind and what
/// differs from it, what its patch breaks, and what the strict validation of
/// messages says.
#[derive(Debug)]
pub struct Findings {
    pub action_schema: Option<Json>,
    pub schema_diff: Vec<String>,
    pub scope_error: Option<String>,
    pub message_error: Option<String>,
}

/// The kind of an action.
pub open spec fn kind_of(action: JsonView) -> Seq<char> {
    match json::text_field(action, "action"@) {
        Some(kind) => kind,
        None => "unknown"@,
    }
}

/// Everything that is said of an action. What is wrong with a message is only said
/// where the action is an object.
pub open spec fn whole_diff(action: JsonView, role: Seq<char>, found: Findings) -> Seq<Seq<char>> {
    let kind = kind_of(action);
    let general = general_diff(
        text::texts(found.schema_diff@),
        action,
        kind,
        text::optional(found.scope_error),
    );
    let planned = with_unique_if(
        general,
        unvalidated_plan(action, role, kind),
        plan_validation_message(),
    );
    if kind == "message"@ {
        message_diff(planned, action, text::optional(found.message_error))
    } else {
        planned
    }
}

/// The format that a message was expected to have.
pub open spec fn expected_format_of(action: JsonView) -> Option<Seq<char>> {
    match (json::text_field(action, "type"@), json::text_field(action, "status"@)) {
        (Some(t), Some(s)) => if kind_of(action) == "message"@ {
            Some(
                one_line(
                    match json::text_field(action, "from"@) {
                        Some(f) => f,
                        None => "executor"@,
                    },
                    match json::text_field(action, "to"@) {
                        Some(f) => f,
                        None => "verifier"@,
                    },
                    t,
                    s,
                ),
            )
        } else {
            None
        },
        _ => None,
    }
}

fn write_expected_format(action: &Json, kind: &str) -> (r: Option<String>)
    requires
        kind@ == kind_of(action@),
    ensures
        text::optional(r) == expected_format_of(action@),
{
    match (get_text(action, "type"), get_text(action, "status")) {
        (Some(t), Some(s)) => if same(kind, "message") {
            let from = match get_text(action, "from") {
                Some(f) => f,
                None => "executor",
            };
            let to_role = match get_text(action, "to") {
                Some(f) => f,
                None => "verifier",
            };
            Some(expected_message_format(from, to_role, t, s))
        } else {
            None
        },
        _ => None,
    }
}

/// A value, null where there is none.
pub open spec fn value_or_null(v: Option<JsonView>) -> JsonView {
    match v {
        Some(x) => x,
        None => JsonView::Null,
    }
}

/// What a value in an option holds.
pub open spec fn held_in(v: Option<Json>) -> Option<JsonView> {
    match v {
        Some(x) => Some(x@),
        None => None,
    }
}

/// The feedback on an action, as a value.
pub open spec fn feedback(
    raw_action: Option<JsonView>,
    found: Findings,
    err_text: Seq<char>,
    role: Seq<char>,
) -> JsonView {
    let (schema, expected, format, example, diff) = match raw_action {
        Some(action) => (
            value_or_null(held_in(found.action_schema)),
            expected_fields_of(kind_of(action)),
            expected_format_of(action),
            example_view(kind_of(action), role, raw_action),
            whole_diff(action, role, found),
        ),
        None => (JsonView::Null, text::no_texts(), None, JsonView::Null, text::no_texts()),
    };
    JsonView::Object(
        json::no_members().push(("action_schema"@, schema)).push(
            ("error_type"@, JsonView::Text("invalid_action"@)),
        ).push(("example_action"@, example)).push(
            ("expected_fields"@, json::text_array_view(expected)),
        ).push(("expected_format"@, json::optional_text_view(format))).push(
            ("reason"@, JsonView::Text(err_text)),
        ).push(("schema_diff"@, json::text_array_view(diff))),
    )
}

/// The feedback on an action, as a value.
pub fn build_feedback(
    raw_action: Option<&Json>,
    found: &Findings,
    err_text: &str,
    role: &str,
) -> (r: Json)
    ensures
        r@ == feedback(shown(raw_action), *found, err_text@, role@),
{
    let mut schema = Json::Null;
    let mut expected = empty_list();
    let mut format: Option<String> = None;
    let mut example = Json::Null;
    let mut diff = empty_list();
    match raw_action {
        Some(action) => {
            let kind = match get_text(action, "action") {
                Some(kind) => kind,
                None => "unknown",
            };
            match &found.action_schema {
                Some(s) => {
                    schema = copy_json(s);
                },
                None => {},
            }
            expected = invalid_action_expected_fields(kind);
            format = write_expected_format(action, kind);
            example = example_action_for(kind, role, Some(action));
            diff = text::copy_texts(&found.schema_diff);
            collect_general_action_schema_diff(&mut diff, action, kind, &found.scope_error);
            maybe_push_planner_plan_diagnostics_error(&mut diff, action, role, kind);
            if same(kind, "message") {
                collect_message_schema_diff(&mut diff, action, &found.message_error);
            }
        },
        None => {},
    }
    let ms = members();
    let ms = and(ms, "action_schema", schema);
    let ms = and(ms, "error_type", string("invalid_action"));
    let ms = and(ms, "example_action", example);
    let ms = and(ms, "expected_fields", string_array(&expected));
    let ms = and(ms, "expected_format", optional_string(&format));
    let ms = and(ms, "reason", string(err_text));
    let ms = and(ms, "schema_diff", string_array(&diff));
    object(ms)
}

/// The feedback on an action, as a prompt.
pub open spec fn feedback_prompt(printed: Seq<char>) -> Seq<char> {
    "Invalid action rejected.\naction_result:\n"@ + printed
        + "\nReturn exactly one action as a single JSON object in a ```json code block. No prose outside it.\nFor any mutating retry (`apply_patch`, `plan`, `objectives`, `issue`, or `rename_symbol`), include a non-empty `question` field stating the decision-boundary premise."@
}

/// The prompt around a printed feedback.
pub fn write_feedback_prompt(printed: &str) -> (r: String)
    ensures
        r@ == feedback_prompt(printed@),
{
    let mut t = "Invalid action rejected.\naction_result:\n".to_owned();
    t.append(printed);
    t.append(
        "\nReturn exactly one action as a single JSON object in a ```json code block. No prose outside it.\nFor any mutating retry (`apply_patch`, `plan`, `objectives`, `issue`, or `rename_symbol`), include a non-empty `question` field stating the decision-boundary premise.",
    );
    t
}

/// The feedback on an action, as a prompt.
pub fn build_invalid_action_feedback(
    raw_action: Option<&Json>,
    found: &Findings,
    err_text: &str,
    role: &str,
) -> (r: String)
    ensures
        r@ == feedback_prompt(
            json_text::pretty(
                json_text::settled(feedback(shown(raw_action), *found, err_text@, role@)),
            ),
        ),
{
    let value = build_feedback(raw_action, found, err_text, role);
    write_feedback_prompt(pretty_text(&value).as_str())
}

// ---------------------------------------------------------------------------
// Repair
// ---------------------------------------------------------------------------

/// Members of an object and whether they were changed.
pub struct Repaired {
    pub ms: Seq<(Seq<char>, JsonView)>,
    pub changed: bool,
}

/// The members with a text under a key, unless a text that is not blank is there.
pub open spec fn with_default(r: Repaired, field: Seq<char>, value: Seq<char>) -> Repaired {
    if filled_text(json::member(r.ms, field)) {
        r
    } else {
        Repaired { ms: json::with_member(r.ms, field, JsonView::Text(value)), changed: true }
    }
}

/// Puts a text under a key, unless a text that is not blank is there.
pub fn ensure_object_string_field(ms: &mut Vec<(String, Json)>, field: &str, value: &str) -> (r:
    bool)
    ensures
        ({
            let before = Repaired { ms: json::members_view(old(ms)@), changed: false };
            let after = with_default(before, field@, value@);
            &&& json::members_view(final(ms)@) == after.ms
            &&& r == after.changed
        }),
{
    match find_member(ms, field) {
        Some(i) => {
            if is_filled_text(Some(&ms[i].1)) {
                return false;
            }
        },
        None => {},
    }
    set_member(ms, field, string(value));
    true
}

fn fill(ms: &mut Vec<(String, Json)>, changed: bool, field: &str, value: &str) -> (r: bool)
    ensures
        ({
            let before = Repaired { ms: json::members_view(old(ms)@), changed };
            let after = with_default(before, field@, value@);
            &&& json::members_view(final(ms)@) == after.ms
            &&& r == after.changed
        }),
{
    let filled = ensure_object_string_field(ms, field, value);
    changed || filled
}

/// Whether two or three actions are named that may come next.
pub open spec fn predictions_named(ms: Seq<(Seq<char>, JsonView)>) -> bool {
    json::member(ms, "predicted_next_actions"@) matches Some(JsonView::Array(items)) && 2
        <= items.len() <= 3
}

/// Whether the actions that may come next are missing.
pub fn missing_predicted_next_actions(ms: &Vec<(String, Json)>) -> (r: bool)
    ensures
        r == !predictions_named(json::members_view(ms@)),
{
    match find_member(ms, "predicted_next_actions") {
        Some(i) => {
            proof {
                json::lemma_json_view(ms@[i as int].1);
            }
            match &ms[i].1 {
                Json::Array(items) => !(2 <= items.len() && items.len() <= 3),
                _ => true,
            }
        },
        None => true,
    }
}

/// The members with two actions that may come next, unless two or three are named.
pub open spec fn with_predictions(r: Repaired) -> Repaired {
    if predictions_named(r.ms) {
        r
    } else {
        Repaired {
            ms: json::with_member(
                r.ms,
                "predicted_next_actions"@,
                example_predicted_next_actions_view(),
            ),
            changed: true,
        }
    }
}

fn fill_predictions(ms: &mut Vec<(String, Json)>, changed: bool) -> (r: bool)
    ensures
        ({
            let after = with_predictions(Repaired { ms: json::members_view(old(ms)@), changed });
            &&& json::members_view(final(ms)@) == after.ms
            &&& r == after.changed
        }),
{
    if missing_predicted_next_actions(ms) {
        set_member(ms, "predicted_next_actions", example_predicted_next_actions());
        true
    } else {
        changed
    }
}

/// The members with a value under a key, unless there is any.
pub open spec fn with_absent(r: Repaired, field: Seq<char>, value: Seq<char>) -> Repaired {
    if json::member(r.ms, field) is Some {
        r
    } else {
        Repaired { ms: json::with_member(r.ms, field, JsonView::Text(value)), changed: true }
    }
}

fn fill_absent(ms: &mut Vec<(String, Json)>, changed: bool, field: &str, value: &str) -> (r: bool)
    ensures
        ({
            let after = with_absent(
                Repaired { ms: json::members_view(old(ms)@), changed },
                field@,
                value@,
            );
            &&& json::members_view(final(ms)@) == after.ms
            &&& r == after.changed
        }),
{
    match find_member(ms, field) {
        Some(_) => changed,
        None => {
            set_member(ms, field, string(value));
            true
        },
    }
}

/// Whether nothing is there: no value at all, or an empty one.
pub open spec fn nothing_there(v: Option<JsonView>) -> bool {
    match v {
        None => true,
        Some(JsonView::Null) => true,
        Some(JsonView::Text(t)) => text::blank(t),
        Some(JsonView::Array(items)) => items.len() == 0,
        Some(JsonView::Object(ms)) => ms.len() == 0,
        Some(_) => false,
    }
}

fn is_nothing(ms: &Vec<(String, Json)>, field: &str) -> (r: bool)
    ensures
        r == nothing_there(json::member(json::members_view(ms@), field@)),
{
    match find_member(ms, field) {
        Some(i) => {
            proof {
                json::lemma_json_view(ms@[i as int].1);
            }
            match &ms[i].1 {
                Json::Null => true,
                Json::Text(t) => is_blank(t.as_str()),
                Json::Array(items) => items.len() == 0,
                Json::Object(members) => members.len() == 0,
                _ => false,
            }
        },
        None => true,
    }
}

/// The members with a value under a key, unless something is there.
pub open spec fn with_filled(r: Repaired, field: Seq<char>, value: JsonView) -> Repaired {
    if nothing_there(json::member(r.ms, field)) {
        Repaired { ms: json::with_member(r.ms, field, value), changed: true }
    } else {
        r
    }
}

fn fill_empty(ms: &mut Vec<(String, Json)>, changed: bool, field: &str, value: Json) -> (r: bool)
    ensures
        ({
            let before = Repaired { ms: json::members_view(old(ms)@), changed };
            let after = with_filled(before, field@, value@);
            &&& json::members_view(final(ms)@) == after.ms
            &&& r == after.changed
        }),
{
    if is_nothing(ms, field) {
        set_member(ms, field, value);
        true
    } else {
        changed
    }
}

/// An action with the fields that every action has to have.
pub open spec fn based(r: Repaired) -> Repaired {
    let r = with_filled(r, "rationale"@, JsonView::Text("Auto-filled to satisfy schema."@));
    let r = with_filled(r, "predicted_next_actions"@, example_predicted_next_actions_view());
    let r = with_filled(r, "intent"@, JsonView::Text("Auto-filled intent."@));
    let r = with_absent(r, "task_id"@, "unknown"@);
    with_absent(r, "objective_id"@, "unknown"@)
}

/// Fills in the fields that every action has to have, where they are absent or
/// empty; the task and the objective only where they are absent. A value that is
/// present is never overwritten. Says whether any field was filled in.
pub fn ensure_action_base_schema(action: &mut Json) -> (r: bool)
    ensures
        match old(action)@ {
            JsonView::Object(ms) => {
                let after = based(Repaired { ms, changed: false });
                &&& final(action)@ == JsonView::Object(after.ms)
                &&& r == after.changed
            },
            _ => *final(action) == *old(action) && !r,
        },
{
    let mut taken = Json::Null;
    std::mem::swap(action, &mut taken);
    proof {
        json::lemma_json_view(taken);
    }
    match taken {
        Json::Object(members) => {
            let mut ms = members;
            let changed = fill_empty(
                &mut ms,
                false,
                "rationale",
                string("Auto-filled to satisfy schema."),
            );
            let changed = fill_empty(
                &mut ms,
                changed,
                "predicted_next_actions",
                example_predicted_next_actions(),
            );
            let changed = fill_empty(&mut ms, changed, "intent", string("Auto-filled intent."));
            let changed = fill_absent(&mut ms, changed, "task_id", "unknown");
            let changed = fill_absent(&mut ms, changed, "objective_id", "unknown");
            *action = object(ms);
            changed
        },
        other => {
            *action = other;
            false
        },
    }
}

/// The text under a key of an object, or else a default.
pub open spec fn text_member_or(
    ms: Seq<(Seq<char>, JsonView)>,
    field: Seq<char>,
    default: Seq<char>,
) -> Seq<char> {
    match json::member(ms, field) {
        Some(JsonView::Text(t)) => t,
        _ => default,
    }
}

fn get_member_or(ms: &Vec<(String, Json)>, field: &str, default: &str) -> (r: String)
    ensures
        r@ == text_member_or(json::members_view(ms@), field@, default@),
{
    match find_member(ms, field) {
        Some(i) => match &ms[i].1 {
            Json::Text(t) => t.as_str().to_owned(),
            _ => default.to_owned(),
        },
        None => default.to_owned(),
    }
}

/// A message that comes from the given role, whatever it says.
pub open spec fn with_sender(r: Repaired, from: Seq<char>) -> Repaired {
    if json::member(r.ms, "from"@) == Some(JsonView::Text(from)) {
        r
    } else {
        Repaired { ms: json::with_member(r.ms, "from"@, JsonView::Text(from)), changed: true }
    }
}

/// A message that has an object as its payload.
pub open spec fn with_payload(r: Repaired) -> Repaired {
    if json::member(r.ms, "payload"@) matches Some(JsonView::Object(_)) {
        r
    } else {
        Repaired {
            ms: json::with_member(r.ms, "payload"@, JsonView::Object(json::no_members())),
            changed: true,
        }
    }
}

/// A payload with the fields that it has to have.
pub open spec fn filled_payload(r: Repaired, expected_format: Seq<char>, blocker: bool) -> Repaired {
    let r = with_default(r, "summary"@, "auto-filled message fields"@);
    let r = with_default(r, "expected_format"@, expected_format);
    if blocker {
        let r = with_default(r, "blocker"@, "auto-filled blocker details"@);
        let r = with_default(r, "evidence"@, "auto-filled blocker evidence"@);
        with_default(r, "required_action"@, "auto-filled required action"@)
    } else {
        r
    }
}

/// A payload says what it is about, in which form an answer is expected, and, of a blocker,
/// what blocks, what shows it and what is to be done.
pub open spec fn payload_lacks_nothing(p: Seq<(Seq<char>, JsonView)>, blocker: bool) -> bool {
    &&& filled_text(json::member(p, "summary"@))
    &&& filled_text(json::member(p, "expected_format"@))
    &&& blocker ==> {
        &&& filled_text(json::member(p, "blocker"@))
        &&& filled_text(json::member(p, "evidence"@))
        &&& filled_text(json::member(p, "required_action"@))
    }
}

/// A message whose payload has the fields that it has to have.
pub open spec fn with_filled_payload(
    r: Repaired,
    expected_format: Seq<char>,
    blocker: bool,
) -> Repaired {
    match json::member(r.ms, "payload"@) {
        Some(JsonView::Object(p)) => {
            let q = filled_payload(Repaired { ms: p, changed: false }, expected_format, blocker);
            if q.changed {
                Repaired {
                    ms: json::with_member(r.ms, "payload"@, JsonView::Object(q.ms)),
                    changed: true,
                }
            } else {
                r
            }
        },
        _ => r,
    }
}

/// The route that a message names; what it leaves open comes from its role.
pub open spec fn stated_route(ms: Seq<(Seq<char>, JsonView)>, role: Seq<char>) -> RouteView {
    let route = default_route(role);
    route_of(
        text_member_or(ms, "from"@, route.from),
        text_member_or(ms, "to"@, route.to_role),
        text_member_or(ms, "type"@, route.msg_type),
        text_member_or(ms, "status"@, route.status),
    )
}

/// A message with its route and its payload.
pub open spec fn routed(r: Repaired, role: Seq<char>) -> Repaired {
    let route = default_route(role);
    let r = with_sender(r, route.from);
    let r = with_default(r, "to"@, route.to_role);
    let r = with_default(r, "type"@, route.msg_type);
    let r = with_default(r, "status"@, route.status);
    with_payload(r)
}

/// A message with all the fields that it has to have.
pub open spec fn completed(r: Repaired, role: Seq<char>) -> Repaired {
    let r = routed(r, role);
    let stated = stated_route(r.ms, role);
    let expected_format = one_line(stated.from, stated.to_role, stated.msg_type, stated.status);
    let blocker = blocker_type(Some(stated.msg_type)) || blocked_status(Some(stated.status));
    let r = with_predictions(r);
    let r = with_filled_payload(r, expected_format, blocker);
    let r = with_default(r, "observation"@, "Auto-filled missing message fields."@);
    with_default(r, "rationale"@, "Repair invalid message schema to continue execution."@)
}

/// Whether the members are those of a message.
pub open spec fn is_message(ms: Seq<(Seq<char>, JsonView)>) -> bool {
    json::member(ms, "action"@) == Some(JsonView::Text("message"@))
}

fn names_message(ms: &Vec<(String, Json)>) -> (r: bool)
    ensures
        r == is_message(json::members_view(ms@)),
{
    match find_member(ms, "action") {
        Some(i) => match &ms[i].1 {
            Json::Text(t) => same(t.as_str(), "message"),
            _ => false,
        },
        None => false,
    }
}

fn fill_sender(ms: &mut Vec<(String, Json)>, from: &str) -> (r: bool)
    ensures
        ({
            let after = with_sender(
                Repaired { ms: json::members_view(old(ms)@), changed: false },
                from@,
            );
            &&& json::members_view(final(ms)@) == after.ms
            &&& r == after.changed
        }),
{
    match find_member(ms, "from") {
        Some(i) => match &ms[i].1 {
            Json::Text(t) => {
                if same(t.as_str(), from) {
                    return false;
                }
            },
            _ => {},
        },
        None => {},
    }
    set_member(ms, "from", string(from));
    true
}

fn fill_payload_object(ms: &mut Vec<(String, Json)>, changed: bool) -> (r: bool)
    ensures
        ({
            let after = with_payload(Repaired { ms: json::members_view(old(ms)@), changed });
            &&& json::members_view(final(ms)@) == after.ms
            &&& r == after.changed
        }),
{
    match find_member(ms, "payload") {
        Some(i) => {
            proof {
                json::lemma_json_view(ms@[i as int].1);
            }
            match &ms[i].1 {
                Json::Object(_) => {
                    return changed;
                },
                _ => {},
            }
        },
        None => {},
    }
    set_member(ms, "payload", object(members()));
    true
}

fn fill_payload(
    ms: &mut Vec<(String, Json)>,
    changed: bool,
    expected_format: &str,
    blocker: bool,
) -> (r: bool)
    ensures
        ({
            let after = with_filled_payload(
                Repaired { ms: json::members_view(old(ms)@), changed },
                expected_format@,
                blocker,
            );
            &&& json::members_view(final(ms)@) == after.ms
            &&& r == after.changed
        }),
{
    let payload = match find_member(ms, "payload") {
        Some(i) => copy_json(&ms[i].1),
        None => {
            return changed;
        },
    };
    proof {
        json::lemma_json_view(payload);
    }
    match payload {
        Json::Object(held) => {
            let mut p = held;
            let filled = fill(&mut p, false, "summary", "auto-filled message fields");
            let filled = fill(&mut p, filled, "expected_format", expected_format);
            let filled = if blocker {
                let filled = fill(&mut p, filled, "blocker", "auto-filled blocker details");
                let filled = fill(&mut p, filled, "evidence", "auto-filled blocker evidence");
                fill(&mut p, filled, "required_action", "auto-filled required action")
            } else {
                filled
            };
            if filled {
                set_member(ms, "payload", object(p));
            }
            changed || filled
        },
        _ => changed,
    }
}

fn complete_message(ms: &mut Vec<(String, Json)>, role: &str) -> (r: bool)
    ensures
        ({
            let after = completed(
                Repaired { ms: json::members_view(old(ms)@), changed: false },
                role@,
            );
            &&& json::members_view(final(ms)@) == after.ms
            &&& r == after.changed
        }),
{
    let (from, to_role, msg_type, status) = default_message_route(role);
    let changed = fill_sender(ms, from);
    let changed = fill(ms, changed, "to", to_role);
    let changed = fill(ms, changed, "type", msg_type);
    let changed = fill(ms, changed, "status", status);
    let changed = fill_payload_object(ms, changed);
    let from = get_member_or(ms, "from", from);
    let to_role = get_member_or(ms, "to", to_role);
    let msg_type = get_member_or(ms, "type", msg_type);
    let status = get_member_or(ms, "status", status);
    let blocker = is_blocker_type(Some(msg_type.as_str())) || is_blocked_status(
        Some(status.as_str()),
    );
    let expected_format = expected_message_format(
        from.as_str(),
        to_role.as_str(),
        msg_type.as_str(),
        status.as_str(),
    );
    let changed = fill_predictions(ms, changed);
    let changed = fill_payload(ms, changed, expected_format.as_str(), blocker);
    let changed = fill(ms, changed, "observation", "Auto-filled missing message fields.");
    fill(ms, changed, "rationale", "Repair invalid message schema to continue execution.")
}

/// Fills in what a message lacks and sets its sender to the role that runs. Says
/// whether anything changed. An action that is no message stays as it is.
pub fn auto_fill_message_fields(action: &mut Json, role: &str) -> (r: bool)
    ensures
        match old(action)@ {
            JsonView::Object(ms) => if is_message(ms) {
                let after = completed(Repaired { ms, changed: false }, role@);
                &&& final(action)@ == JsonView::Object(after.ms)
                &&& r == after.changed
            } else {
                final(action)@ == old(action)@ && !r
            },
            _ => final(action)@ == old(action)@ && !r,
        },
{
    let mut taken = Json::Null;
    std::mem::swap(action, &mut taken);
    proof {
        json::lemma_json_view(taken);
    }
    match taken {
        Json::Object(members) => {
            let mut ms = members;
            let changed = if names_message(&ms) {
                complete_message(&mut ms, role)
            } else {
                false
            };
            *action = object(ms);
            changed
        },
        other => {
            *action = other;
            false
        },
    }
}

// ---------------------------------------------------------------------------
// What repairs keep
// ---------------------------------------------------------------------------

proof fn lemma_with_default(r: Repaired, field: Seq<char>, value: Seq<char>)
    requires
        !text::blank(value),
    ensures
        filled_text(json::member(with_default(r, field, value).ms, field)),
        forall|k: Seq<char>|
            k != field ==> json::member(with_default(r, field, value).ms, k) == json::member(
                r.ms,
                k,
            ),
{
    assert forall|k: Seq<char>| k != field implies json::member(
        with_default(r, field, value).ms,
        k,
    ) == json::member(r.ms, k) by {
        json::law_member_reads_what_was_written(r.ms, field, JsonView::Text(value), k);
    }
    json::law_member_reads_what_was_written(r.ms, field, JsonView::Text(value), field);
}

proof fn lemma_with_absent(r: Repaired, field: Seq<char>, value: Seq<char>)
    ensures
        json::member(with_absent(r, field, value).ms, field) is Some,
        forall|k: Seq<char>|
            k != field ==> json::member(with_absent(r, field, value).ms, k) == json::member(
                r.ms,
                k,
            ),
{
    assert forall|k: Seq<char>| k != field implies json::member(
        with_absent(r, field, value).ms,
        k,
    ) == json::member(r.ms, k) by {
        json::law_member_reads_what_was_written(r.ms, field, JsonView::Text(value), k);
    }
    json::law_member_reads_what_was_written(r.ms, field, JsonView::Text(value), field);
}

proof fn lemma_with_predictions(r: Repaired)
    ensures
        predictions_named(with_predictions(r).ms),
        forall|k: Seq<char>|
            k != "predicted_next_actions"@ ==> json::member(with_predictions(r).ms, k)
                == json::member(r.ms, k),
{
    let key = "predicted_next_actions"@;
    let value = example_predicted_next_actions_view();
    assert forall|k: Seq<char>| k != key implies json::member(with_predictions(r).ms, k)
        == json::member(r.ms, k) by {
        json::law_member_reads_what_was_written(r.ms, key, value, k);
    }
    json::law_member_reads_what_was_written(r.ms, key, value, key);
}

/// The names of fields differ, and what is filled in is not blank.
proof fn lemma_base_fields()
    ensures
        !text::blank("Auto-filled to satisfy schema."@),
        !text::blank("Auto-filled intent."@),
        "rationale"@ != "predicted_next_actions"@,
        "rationale"@ != "intent"@,
        "rationale"@ != "task_id"@,
        "rationale"@ != "objective_id"@,
        "predicted_next_actions"@ != "intent"@,
        "predicted_next_actions"@ != "task_id"@,
        "predicted_next_actions"@ != "objective_id"@,
        "intent"@ != "task_id"@,
        "intent"@ != "objective_id"@,
        "task_id"@ != "objective_id"@,
{
    reveal_strlit("Auto-filled to satisfy schema.");
    reveal_strlit("Auto-filled intent.");
    reveal_strlit("rationale");
    reveal_strlit("predicted_next_actions");
    reveal_strlit("intent");
    reveal_strlit("task_id");
    reveal_strlit("objective_id");
    assert("rationale"@.len() == 9 && "rationale"@[0] == 'r' && "rationale"@[1] == 'a');
    assert("predicted_next_actions"@.len() == 22 && "predicted_next_actions"@[0] == 'p' && "predicted_next_actions"@[1] == 'r');
    assert("intent"@.len() == 6 && "intent"@[0] == 'i' && "intent"@[1] == 'n');
    assert("task_id"@.len() == 7 && "task_id"@[0] == 't' && "task_id"@[1] == 'a');
    assert("objective_id"@.len() == 12 && "objective_id"@[0] == 'o' && "objective_id"@[1] == 'b');
    assert(!text::white_space("Auto-filled to satisfy schema."@[0]));
    assert(!text::white_space("Auto-filled intent."@[0]));
}

proof fn lemma_with_filled(r: Repaired, field: Seq<char>, value: JsonView)
    requires
        !nothing_there(Some(value)),
    ensures
        !nothing_there(json::member(with_filled(r, field, value).ms, field)),
        forall|k: Seq<char>|
            k != field ==> json::member(with_filled(r, field, value).ms, k) == json::member(
                r.ms,
                k,
            ),
{
    assert forall|k: Seq<char>| k != field implies json::member(
        with_filled(r, field, value).ms,
        k,
    ) == json::member(r.ms, k) by {
        json::law_member_reads_what_was_written(r.ms, field, value, k);
    }
    json::law_member_reads_what_was_written(r.ms, field, value, field);
}

proof fn lemma_based(r: Repaired)
    ensures
        !nothing_there(json::member(based(r).ms, "rationale"@)),
        !nothing_there(json::member(based(r).ms, "predicted_next_actions"@)),
        !nothing_there(json::member(based(r).ms, "intent"@)),
        json::member(based(r).ms, "task_id"@) is Some,
        json::member(based(r).ms, "objective_id"@) is Some,
        forall|k: Seq<char>|
            !nothing_there(json::member(r.ms, k)) ==> json::member(based(r).ms, k)
                == json::member(r.ms, k),
        json::member(r.ms, "task_id"@) is Some ==> json::member(based(r).ms, "task_id"@)
            == json::member(r.ms, "task_id"@),
        json::member(r.ms, "objective_id"@) is Some ==> json::member(based(r).ms, "objective_id"@)
            == json::member(r.ms, "objective_id"@),
        forall|k: Seq<char>|
            k != "rationale"@ && k != "predicted_next_actions"@ && k != "intent"@ && k
                != "task_id"@ && k != "objective_id"@ ==> json::member(based(r).ms, k)
                == json::member(r.ms, k),
{
    lemma_base_fields();
    let rationale = JsonView::Text("Auto-filled to satisfy schema."@);
    let predictions = example_predicted_next_actions_view();
    let intent = JsonView::Text("Auto-filled intent."@);
    let r1 = with_filled(r, "rationale"@, rationale);
    let r2 = with_filled(r1, "predicted_next_actions"@, predictions);
    let r3 = with_filled(r2, "intent"@, intent);
    let r4 = with_absent(r3, "task_id"@, "unknown"@);
    lemma_with_filled(r, "rationale"@, rationale);
    lemma_with_filled(r1, "predicted_next_actions"@, predictions);
    lemma_with_filled(r2, "intent"@, intent);
    lemma_with_absent(r3, "task_id"@, "unknown"@);
    lemma_with_absent(r4, "objective_id"@, "unknown"@);
    assert(based(r) == with_absent(r4, "objective_id"@, "unknown"@));
}

/// The repair of an action leaves nothing to repair: done again, it changes nothing.
pub proof fn law_a_repaired_action_needs_no_repair(ms: Seq<(Seq<char>, JsonView)>)
    ensures
        ({
            let once = based(Repaired { ms, changed: false });
            let twice = based(Repaired { ms: once.ms, changed: false });
            !twice.changed && twice.ms == once.ms
        }),
{
    lemma_based(Repaired { ms, changed: false });
}

/// The repair of an action overwrites no value that is present: not even an empty one,
/// where the field is no field that every action has to have, or is its task or its
/// objective.
pub proof fn law_a_repair_overwrites_nothing(ms: Seq<(Seq<char>, JsonView)>, field: Seq<char>)
    requires
        json::member(ms, field) is Some,
        field == "rationale"@ || field == "predicted_next_actions"@ || field == "intent"@
            ==> !nothing_there(json::member(ms, field)),
    ensures
        json::member(based(Repaired { ms, changed: false }).ms, field) == json::member(ms, field),
{
    lemma_base_fields();
    lemma_based(Repaired { ms, changed: false });
}

/// A repaired action has every field that an action has to have.
pub proof fn law_a_repaired_action_lacks_nothing(ms: Seq<(Seq<char>, JsonView)>)
    ensures
        ({
            let after = based(Repaired { ms, changed: false }).ms;
            &&& !nothing_there(json::member(after, "rationale"@))
            &&& !nothing_there(json::member(after, "predicted_next_actions"@))
            &&& !nothing_there(json::member(after, "intent"@))
            &&& json::member(after, "task_id"@) is Some
            &&& json::member(after, "objective_id"@) is Some
        }),
{
    lemma_based(Repaired { ms, changed: false });
}

proof fn lemma_with_sender(r: Repaired, from: Seq<char>)
    ensures
        json::member(with_sender(r, from).ms, "from"@) == Some(JsonView::Text(from)),
        forall|k: Seq<char>|
            k != "from"@ ==> json::member(with_sender(r, from).ms, k) == json::member(r.ms, k),
{
    assert forall|k: Seq<char>| k != "from"@ implies json::member(with_sender(r, from).ms, k)
        == json::member(r.ms, k) by {
        json::law_member_reads_what_was_written(r.ms, "from"@, JsonView::Text(from), k);
    }
    json::law_member_reads_what_was_written(r.ms, "from"@, JsonView::Text(from), "from"@);
}

proof fn lemma_with_payload(r: Repaired)
    ensures
        json::member(with_payload(r).ms, "payload"@) matches Some(JsonView::Object(_)),
        forall|k: Seq<char>|
            k != "payload"@ ==> json::member(with_payload(r).ms, k) == json::member(r.ms, k),
{
    let value = JsonView::Object(json::no_members());
    assert forall|k: Seq<char>| k != "payload"@ implies json::member(with_payload(r).ms, k)
        == json::member(r.ms, k) by {
        json::law_member_reads_what_was_written(r.ms, "payload"@, value, k);
    }
    json::law_member_reads_what_was_written(r.ms, "payload"@, value, "payload"@);
}

proof fn lemma_message_fields()
    ensures
        "from"@ != "to"@,
        "from"@ != "type"@,
        "from"@ != "status"@,
        "from"@ != "payload"@,
        "from"@ != "predicted_next_actions"@,
        "from"@ != "observation"@,
        "from"@ != "rationale"@,
        "from"@ != "action"@,
        "to"@ != "type"@,
        "to"@ != "status"@,
        "to"@ != "payload"@,
        "to"@ != "predicted_next_actions"@,
        "to"@ != "observation"@,
        "to"@ != "rationale"@,
        "to"@ != "action"@,
        "type"@ != "status"@,
        "type"@ != "payload"@,
        "type"@ != "predicted_next_actions"@,
        "type"@ != "observation"@,
        "type"@ != "rationale"@,
        "type"@ != "action"@,
        "status"@ != "payload"@,
        "status"@ != "predicted_next_actions"@,
        "status"@ != "observation"@,
        "status"@ != "rationale"@,
        "status"@ != "action"@,
        "payload"@ != "predicted_next_actions"@,
        "payload"@ != "observation"@,
        "payload"@ != "rationale"@,
        "payload"@ != "action"@,
        "predicted_next_actions"@ != "observation"@,
        "predicted_next_actions"@ != "rationale"@,
        "predicted_next_actions"@ != "action"@,
        "observation"@ != "rationale"@,
        "observation"@ != "action"@,
        "rationale"@ != "action"@,
        !text::blank("Auto-filled missing message fields."@),
        !text::blank("Repair invalid message schema to continue execution."@),
{
    reveal_strlit("from");
    reveal_strlit("to");
    reveal_strlit("type");
    reveal_strlit("status");
    reveal_strlit("payload");
    reveal_strlit("predicted_next_actions");
    reveal_strlit("observation");
    reveal_strlit("rationale");
    reveal_strlit("action");
    reveal_strlit("Auto-filled missing message fields.");
    reveal_strlit("Repair invalid message schema to continue execution.");
    assert("from"@.len() == 4 && "from"@[0] == 'f' && "from"@[1] == 'r');
    assert("to"@.len() == 2 && "to"@[0] == 't' && "to"@[1] == 'o');
    assert("type"@.len() == 4 && "type"@[0] == 't' && "type"@[1] == 'y');
    assert("status"@.len() == 6 && "status"@[0] == 's' && "status"@[1] == 't');
    assert("payload"@.len() == 7 && "payload"@[0] == 'p' && "payload"@[1] == 'a');
    assert("predicted_next_actions"@.len() == 22 && "predicted_next_actions"@[0] == 'p' && "predicted_next_actions"@[1] == 'r');
    assert("observation"@.len() == 11 && "observation"@[0] == 'o' && "observation"@[1] == 'b');
    assert("rationale"@.len() == 9 && "rationale"@[0] == 'r' && "rationale"@[1] == 'a');
    assert("action"@.len() == 6 && "action"@[0] == 'a' && "action"@[1] == 'c');
    assert(!text::white_space("Auto-filled missing message fields."@[0]));
    assert(!text::white_space("Repair invalid message schema to continue execution."@[0]));
}

proof fn lemma_payload_fields()
    ensures
        "summary"@ != "expected_format"@,
        "summary"@ != "blocker"@,
        "summary"@ != "evidence"@,
        "summary"@ != "required_action"@,
        "expected_format"@ != "blocker"@,
        "expected_format"@ != "evidence"@,
        "expected_format"@ != "required_action"@,
        "blocker"@ != "evidence"@,
        "blocker"@ != "required_action"@,
        "evidence"@ != "required_action"@,
        !text::blank("auto-filled message fields"@),
        !text::blank("auto-filled blocker details"@),
        !text::blank("auto-filled blocker evidence"@),
        !text::blank("auto-filled required action"@),
{
    reveal_strlit("summary");
    reveal_strlit("expected_format");
    reveal_strlit("blocker");
    reveal_strlit("evidence");
    reveal_strlit("required_action");
    reveal_strlit("auto-filled message fields");
    reveal_strlit("auto-filled blocker details");
    reveal_strlit("auto-filled blocker evidence");
    reveal_strlit("auto-filled required action");
    assert("summary"@.len() == 7 && "summary"@[0] == 's' && "summary"@[1] == 'u');
    assert("expected_format"@.len() == 15 && "expected_format"@[0] == 'e' && "expected_format"@[1] == 'x');
    assert("blocker"@.len() == 7 && "blocker"@[0] == 'b' && "blocker"@[1] == 'l');
    assert("evidence"@.len() == 8 && "evidence"@[0] == 'e' && "evidence"@[1] == 'v');
    assert("required_action"@.len() == 15 && "required_action"@[0] == 'r' && "required_action"@[1] == 'e');
    assert(!text::white_space("auto-filled message fields"@[0]));
    assert(!text::white_space("auto-filled blocker details"@[0]));
    assert(!text::white_space("auto-filled blocker evidence"@[0]));
    assert(!text::white_space("auto-filled required action"@[0]));
}

proof fn lemma_routes_are_written()
    ensures
        forall|role: Seq<char>|
            !text::blank((#[trigger] default_route(role)).to_role) && !text::blank(
                default_route(role).msg_type,
            ) && !text::blank(default_route(role).status),
{
    assert forall|role: Seq<char>|
        !text::blank((#[trigger] default_route(role)).to_role) && !text::blank(
            default_route(role).msg_type,
        ) && !text::blank(default_route(role).status) by {
        reveal_strlit("executor");
        reveal_strlit("verifier");
        reveal_strlit("handoff");
        reveal_strlit("complete");
        reveal_strlit("planner");
        reveal_strlit("verification");
        reveal_strlit("verified");
        reveal_strlit("diagnostics");
        reveal_strlit("solo");
        reveal_strlit("result");
        reveal_strlit("plan");
        let r = default_route(role);
        assert(!text::white_space(r.to_role[0]));
        assert(!text::white_space(r.msg_type[0]));
        assert(!text::white_space(r.status[0]));
    }
}

proof fn lemma_one_line_is_written(
    from: Seq<char>,
    to_role: Seq<char>,
    msg_type: Seq<char>,
    status: Seq<char>,
)
    ensures
        !text::blank(one_line(from, to_role, msg_type, status)),
{
    reveal_strlit("{ \"action\": \"message\", \"from\": \"");
    assert(one_line(from, to_role, msg_type, status)[0] == '{');
    assert(!text::white_space('{'));
}

proof fn lemma_filled_payload(r: Repaired, expected_format: Seq<char>, blocker: bool)
    requires
        !text::blank(expected_format),
    ensures
        ({
            let q = filled_payload(r, expected_format, blocker);
            &&& filled_payload(Repaired { ms: q.ms, changed: false }, expected_format, blocker).ms
                == q.ms
            &&& !filled_payload(
                Repaired { ms: q.ms, changed: false },
                expected_format,
                blocker,
            ).changed
            &&& payload_lacks_nothing(q.ms, blocker)
            &&& forall|k: Seq<char>|
                filled_text(#[trigger] json::member(r.ms, k)) ==> json::member(q.ms, k)
                    == json::member(r.ms, k)
        }),
{
    lemma_payload_fields();
    let r1 = with_default(r, "summary"@, "auto-filled message fields"@);
    let r2 = with_default(r1, "expected_format"@, expected_format);
    let r3 = with_default(r2, "blocker"@, "auto-filled blocker details"@);
    let r4 = with_default(r3, "evidence"@, "auto-filled blocker evidence"@);
    lemma_with_default(r, "summary"@, "auto-filled message fields"@);
    lemma_with_default(r1, "expected_format"@, expected_format);
    lemma_with_default(r2, "blocker"@, "auto-filled blocker details"@);
    lemma_with_default(r3, "evidence"@, "auto-filled blocker evidence"@);
    lemma_with_default(r4, "required_action"@, "auto-filled required action"@);
}

proof fn lemma_unchanged_payload(
    p: Seq<(Seq<char>, JsonView)>,
    expected_format: Seq<char>,
    blocker: bool,
)
    ensures
        ({
            let q = filled_payload(Repaired { ms: p, changed: false }, expected_format, blocker);
            !q.changed ==> q.ms == p
        }),
{
}

/// What a completed message holds.
proof fn lemma_completed(r: Repaired, role: Seq<char>)
    ensures
        ({
            let after = completed(r, role);
            let stated = stated_route(routed(r, role).ms, role);
            let expected_format = one_line(
                stated.from,
                stated.to_role,
                stated.msg_type,
                stated.status,
            );
            let blocker = blocker_type(Some(stated.msg_type)) || blocked_status(
                Some(stated.status),
            );
            &&& json::member(after.ms, "from"@) == Some(JsonView::Text(default_route(role).from))
            &&& filled_text(json::member(after.ms, "to"@))
            &&& filled_text(json::member(after.ms, "type"@))
            &&& filled_text(json::member(after.ms, "status"@))
            &&& json::member(after.ms, "payload"@) matches Some(JsonView::Object(p))
            &&& filled_payload(Repaired { ms: p, changed: false }, expected_format, blocker).ms == p
            &&& !filled_payload(
                Repaired { ms: p, changed: false },
                expected_format,
                blocker,
            ).changed
            &&& predictions_named(after.ms)
            &&& filled_text(json::member(after.ms, "observation"@))
            &&& filled_text(json::member(after.ms, "rationale"@))
            &&& stated_route(after.ms, role) == stated
            &&& json::member(after.ms, "action"@) == json::member(r.ms, "action"@)
            &&& payload_lacks_nothing(p, blocker)
            &&& json::member(r.ms, "payload"@) matches Some(JsonView::Object(held)) ==> forall|
                k: Seq<char>,
            |
                filled_text(#[trigger] json::member(held, k)) ==> json::member(p, k)
                    == json::member(held, k)
            &&& forall|k: Seq<char>|
                k != "from"@ && k != "payload"@ && k != "predicted_next_actions"@ && filled_text(
                    #[trigger] json::member(r.ms, k),
                ) ==> json::member(after.ms, k) == json::member(r.ms, k)
        }),
{
    lemma_message_fields();
    lemma_routes_are_written();
    let route = default_route(role);
    let r1 = with_sender(r, route.from);
    let r2 = with_default(r1, "to"@, route.to_role);
    let r3 = with_default(r2, "type"@, route.msg_type);
    let r4 = with_default(r3, "status"@, route.status);
    let r5 = with_payload(r4);
    lemma_with_sender(r, route.from);
    lemma_with_default(r1, "to"@, route.to_role);
    lemma_with_default(r2, "type"@, route.msg_type);
    lemma_with_default(r3, "status"@, route.status);
    lemma_with_payload(r4);
    assert(r5 == routed(r, role));
    let stated = stated_route(r5.ms, role);
    let expected_format = one_line(stated.from, stated.to_role, stated.msg_type, stated.status);
    let blocker = blocker_type(Some(stated.msg_type)) || blocked_status(Some(stated.status));
    lemma_one_line_is_written(stated.from, stated.to_role, stated.msg_type, stated.status);
    let r6 = with_predictions(r5);
    lemma_with_predictions(r5);
    let p = json::member(r6.ms, "payload"@)->0->Object_0;
    let q = filled_payload(Repaired { ms: p, changed: false }, expected_format, blocker);
    lemma_filled_payload(Repaired { ms: p, changed: false }, expected_format, blocker);
    lemma_unchanged_payload(p, expected_format, blocker);
    let r7 = with_filled_payload(r6, expected_format, blocker);
    assert forall|k: Seq<char>| k != "payload"@ implies json::member(r7.ms, k) == json::member(
        r6.ms,
        k,
    ) by {
        json::law_member_reads_what_was_written(r6.ms, "payload"@, JsonView::Object(q.ms), k);
    }
    json::law_member_reads_what_was_written(
        r6.ms,
        "payload"@,
        JsonView::Object(q.ms),
        "payload"@,
    );
    let r8 = with_default(r7, "observation"@, "Auto-filled missing message fields."@);
    lemma_with_default(r7, "observation"@, "Auto-filled missing message fields."@);
    lemma_with_default(
        r8,
        "rationale"@,
        "Repair invalid message schema to continue execution."@,
    );
}

/// The completion of a message leaves nothing to complete: done again, it changes
/// nothing.
pub proof fn law_a_completed_message_needs_no_completion(
    ms: Seq<(Seq<char>, JsonView)>,
    role: Seq<char>,
)
    ensures
        ({
            let once = completed(Repaired { ms, changed: false }, role);
            let twice = completed(Repaired { ms: once.ms, changed: false }, role);
            !twice.changed && twice.ms == once.ms
        }),
{
    let once = completed(Repaired { ms, changed: false }, role);
    lemma_completed(Repaired { ms, changed: false }, role);
    assert(routed(Repaired { ms: once.ms, changed: false }, role).ms == once.ms);
}

/// A completed message comes from the role that runs, whatever it said, and is still
/// a message.
pub proof fn law_a_message_comes_from_its_role(ms: Seq<(Seq<char>, JsonView)>, role: Seq<char>)
    requires
        is_message(ms),
    ensures
        ({
            let after = completed(Repaired { ms, changed: false }, role).ms;
            &&& json::member(after, "from"@) == Some(JsonView::Text(default_route(role).from))
            &&& is_message(after)
        }),
{
    lemma_completed(Repaired { ms, changed: false }, role);
}

/// A completed message names where it goes, what it is and its status, says why it comes
/// and what may come next, and has an object as its payload that lacks nothing either.
pub proof fn law_a_completed_message_lacks_nothing(
    ms: Seq<(Seq<char>, JsonView)>,
    role: Seq<char>,
)
    ensures
        ({
            let after = completed(Repaired { ms, changed: false }, role).ms;
            &&& filled_text(json::member(after, "to"@))
            &&& filled_text(json::member(after, "type"@))
            &&& filled_text(json::member(after, "status"@))
            &&& predictions_named(after)
            &&& filled_text(json::member(after, "observation"@))
            &&& filled_text(json::member(after, "rationale"@))
            &&& json::member(after, "payload"@) matches Some(JsonView::Object(p))
            &&& payload_lacks_nothing(
                p,
                blocker_type(Some(stated_route(after, role).msg_type)) || blocked_status(
                    Some(stated_route(after, role).status),
                ),
            )
        }),
{
    lemma_completed(Repaired { ms, changed: false }, role);
}

/// Completing a message keeps every field that has text, but for its sender, and every
/// such field of its payload.
pub proof fn law_a_completion_keeps_what_is_written(
    ms: Seq<(Seq<char>, JsonView)>,
    role: Seq<char>,
    field: Seq<char>,
)
    ensures
        ({
            let after = completed(Repaired { ms, changed: false }, role).ms;
            &&& field != "from"@ && field != "payload"@ && field != "predicted_next_actions"@
                && filled_text(json::member(ms, field)) ==> json::member(after, field)
                == json::member(ms, field)
            &&& json::member(ms, "payload"@) matches Some(JsonView::Object(p)) ==> filled_text(
                json::member(p, field),
            ) ==> json::field(json::member(after, "payload"@)->0, field) == json::member(p, field)
        }),
{
    lemma_completed(Repaired { ms, changed: false }, role);
}

} // verus!
