//! One tool action that is run on its own: its arguments, its input and its result.

use crate::constants;
use crate::constants::{set_agent_state_dir, set_workspace, RuntimeContext};
use crate::flags;
use crate::flags::{has_flag, parse_usize_flag, take_flag_value, take_flag_value_or};
use crate::json;
use crate::json::{and, boolean, members, object, string, Json, JsonView};
use crate::json_text;
use crate::json_text::{parse_json, pretty_text};
use crate::text;
use vstd::prelude::*;
use vstd::string::*;

verus! {

/// The arguments of a run.
#[derive(Debug)]
pub struct CapabilityArgs {
    pub workspace: String,
    pub role: String,
    pub step: usize,
    pub state_dir: Option<String>,
    pub check_on_done: bool,
}

/// What is wrong with the arguments, the first thing first.
pub open spec fn argument_error(args: Seq<Seq<char>>) -> Option<Seq<char>> {
    if flags::flag_value(args, "--workspace"@) is None {
        Some("missing --workspace"@)
    } else if flags::flag_value(args, "--step"@) is None {
        Some("missing --step"@)
    } else if flags::count_flag(args, "--step"@, 0) is None {
        Some("--step"@ + " must be an integer"@)
    } else {
        None
    }
}

/// Whether the arguments say what was read.
pub open spec fn arguments_read(args: Seq<Seq<char>>, a: CapabilityArgs) -> bool {
    &&& flags::flag_value(args, "--workspace"@) == Some(a.workspace@)
    &&& a.role@ == flags::flag_value_or(args, "--role"@, "capability"@)
    &&& flags::count_flag(args, "--step"@, 0) == Some(a.step)
    &&& text::optional(a.state_dir) == flags::flag_value(args, "--state-dir"@)
    &&& a.check_on_done == args.contains("--check-on-done"@)
}

/// Reads the arguments.
pub fn parse_capability_args(args: &Vec<String>) -> (r: Result<CapabilityArgs, String>)
    ensures
        match argument_error(text::texts(args@)) {
            Some(why) => r matches Err(e) && e@ == why,
            None => r matches Ok(a) && arguments_read(text::texts(args@), a),
        },
{
    let workspace = match take_flag_value(args, "--workspace") {
        Some(w) => w,
        None => {
            return Err("missing --workspace".to_owned());
        },
    };
    if take_flag_value(args, "--step").is_none() {
        return Err("missing --step".to_owned());
    }
    let step: usize = match parse_usize_flag(args, "--step", 0) {
        Ok(n) => n,
        Err(e) => {
            return Err(e);
        },
    };
    Ok(
        CapabilityArgs {
            workspace,
            role: take_flag_value_or(args, "--role", "capability"),
            step,
            state_dir: take_flag_value(args, "--state-dir"),
            check_on_done: has_flag(args, "--check-on-done"),
        },
    )
}

/// Sets the workspace, and the state directory where one is given.
pub fn configure_runtime(ctx: &mut RuntimeContext, workspace: &str, state_dir: Option<String>)
    ensures
        constants::text_or(final(ctx).workspace, ""@) == workspace@,
        final(ctx).workspace is Some,
        final(ctx).agent_state_dir == (match state_dir {
            Some(dir) => Some(dir),
            None => old(ctx).agent_state_dir,
        }),
        final(ctx).planner_projection_file == old(ctx).planner_projection_file,
        final(ctx).active_task_id == old(ctx).active_task_id,
{
    set_workspace(ctx, workspace.to_owned());
    match state_dir {
        Some(dir) => {
            set_agent_state_dir(ctx, dir);
        },
        None => {},
    }
}

/// Reads the action from its text.
pub fn read_action(raw: &str) -> (r: Result<Json, String>)
    ensures
        match json_text::read(raw@) {
            Some(v) => r matches Ok(action) && action@ == v,
            None => r matches Err(e) && e@ == "stdin is not valid JSON"@,
        },
{
    match parse_json(raw) {
        Some(action) => Ok(action),
        None => Err("stdin is not valid JSON".to_owned()),
    }
}

/// What a run gives back.
pub open spec fn result_value(done: bool, output: Seq<char>) -> JsonView {
    JsonView::Object(
        json::no_members().push(("done"@, JsonView::Bool(done))).push(
            ("ok"@, JsonView::Bool(true)),
        ).push(("output"@, JsonView::Text(output))),
    )
}

/// What a run gives back, as it is printed.
pub fn write_result(done: bool, output: &str) -> (r: String)
    ensures
        r@ == json_text::pretty(json_text::settled(result_value(done, output@))),
{
    let value = members();
    let value = and(value, "done", boolean(done));
    let value = and(value, "ok", boolean(true));
    let value = and(value, "output", string(output));
    pretty_text(&object(value))
}

} // verus!
