//! Where lessons are gathered from the action log, and where their candidates go.

use crate::flags;
use crate::flags::{take_flag_value, take_flag_value_or};
use crate::text;
use crate::text::join_path;
use vstd::prelude::*;

verus! {

/// The workspace: the one that is given, else the current directory. The caller makes it
/// canonical where it can.
pub fn lessons_workspace(args: &Vec<String>, current_dir: &str) -> (r: String)
    ensures
        r@ == flags::flag_value_or(text::texts(args@), "--workspace"@, current_dir@),
{
    take_flag_value_or(args, "--workspace", current_dir)
}

/// The state directory: the one that is given, else the usual one of the workspace.
pub fn lessons_state_dir(args: &Vec<String>, workspace: &str) -> (r: String)
    ensures
        r@ == flags::flag_value_or(
            text::texts(args@),
            "--state-dir"@,
            text::below(workspace@, "agent_state"@),
        ),
{
    match take_flag_value(args, "--state-dir") {
        Some(dir) => dir,
        None => join_path(workspace, "agent_state"),
    }
}

/// Where the candidates are written.
pub fn candidates_path(workspace: &str) -> (r: String)
    ensures
        r@ == text::below(
            text::below(workspace@, "agent_state"@),
            "lessons_candidates.json"@,
        ),
{
    join_path(join_path(workspace, "agent_state").as_str(), "lessons_candidates.json")
}

} // verus!
