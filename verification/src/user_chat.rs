//! Messages of a user from outside the runtime.

use crate::events::EffectEvent;
use crate::flags;
use crate::flags::take_flag_value;
use crate::json;
use crate::json::{and, boolean, members, object, string, Json, JsonView};
use crate::json_text;
use crate::json_text::pretty_text;
use crate::text;
use crate::text::{is_blank, join_path, sanitize_fragment, starts_with, to_lowercase, trim};
use vstd::prelude::*;
use vstd::string::*;

verus! {

/// A role as a part of a file name.
pub open spec fn role_key(role: Seq<char>) -> Seq<char> {
    text::identifier_fragment(text::lowercase(text::trimmed(role)))
}

/// A role as a part of a file name: trimmed, in lower case, and with an underscore
/// for every character that is no letter or digit of ASCII.
pub fn sanitize_role(role: &str) -> (r: String)
    ensures
        r@ == role_key(role@),
{
    sanitize_fragment(to_lowercase(trim(role).as_str()).as_str())
}

/// Whether a path is absolute.
pub open spec fn absolute(path: Seq<char>) -> bool {
    text::has_prefix(path, "/"@)
}

/// A path that has to be absolute.
pub fn check_absolute(flag: &str, path: &str) -> (r: Result<(), String>)
    ensures
        r is Ok <==> absolute(path@),
        r matches Err(e) ==> e@ == flag@ + " must be an absolute path, got: "@ + path@,
{
    if starts_with(path, "/") {
        Ok(())
    } else {
        let mut e = flag.to_owned();
        e.append(" must be an absolute path, got: ");
        e.append(path);
        Err(e)
    }
}

/// The state directory: the one that is given, else the usual one of the workspace.
pub open spec fn state_dir_of(workspace: Seq<char>, given: Option<Seq<char>>) -> Seq<char> {
    match given {
        Some(dir) => dir,
        None => text::below(workspace, "agent_state"@),
    }
}

/// The state directory, where it is absolute.
pub fn resolve_state_dir(workspace: &str, state_dir_flag: Option<String>) -> (r: Result<
    String,
    String,
>)
    ensures
        ({
            let dir = state_dir_of(workspace@, text::optional(state_dir_flag));
            if absolute(dir) {
                r matches Ok(d) && d@ == dir
            } else {
                r matches Err(e) && e@ == "--state-dir must be an absolute path, got: "@ + dir
            }
        }),
{
    let dir = match state_dir_flag {
        Some(dir) => dir,
        None => join_path(workspace, "agent_state"),
    };
    if starts_with(dir.as_str(), "/") {
        Ok(dir)
    } else {
        let mut e = "--state-dir must be an absolute path, got: ".to_owned();
        e.append(dir.as_str());
        Err(e)
    }
}

/// Where the message of a user comes from.
#[derive(Debug)]
pub enum MessageSource {
    Given(String),
    File(String),
}

/// Where the message of a user comes from: a text given by a flag goes before a
/// file.
pub fn message_source(args: &Vec<String>) -> (r: Result<MessageSource, String>)
    ensures
        match flags::flag_value(text::texts(args@), "--message"@) {
            Some(m) => if text::blank(m) {
                r matches Err(e) && e@ == "--message cannot be empty"@
            } else {
                r matches Ok(MessageSource::Given(t)) && t@ == text::trimmed(m)
            },
            None => match flags::flag_value(text::texts(args@), "--message-file"@) {
                Some(p) => r matches Ok(MessageSource::File(t)) && t@ == p,
                None => r matches Err(e) && e@ == "missing --message or --message-file"@,
            },
        },
{
    match take_flag_value(args, "--message") {
        Some(m) => {
            if is_blank(m.as_str()) {
                Err("--message cannot be empty".to_owned())
            } else {
                Ok(MessageSource::Given(trim(m.as_str())))
            }
        },
        None => match take_flag_value(args, "--message-file") {
            Some(p) => Ok(MessageSource::File(p)),
            None => Err("missing --message or --message-file".to_owned()),
        },
    }
}

/// The message in a file.
pub fn message_in_file(content: &str) -> (r: Result<String, String>)
    ensures
        if text::blank(content@) {
            r matches Err(e) && e@ == "--message-file contained only whitespace"@
        } else {
            r matches Ok(t) && t@ == text::trimmed(content@)
        },
{
    if is_blank(content) {
        Err("--message-file contained only whitespace".to_owned())
    } else {
        Ok(trim(content))
    }
}

/// A message of the user to a role, as an action.
pub open spec fn handoff(to_key: Seq<char>, message: Seq<char>) -> JsonView {
    let payload = JsonView::Object(
        json::no_members().push(("reply_to"@, JsonView::Text("user"@))).push(
            ("summary"@, JsonView::Text(message)),
        ).push(("user_message"@, JsonView::Text(message))),
    );
    JsonView::Object(
        json::no_members().push(("action"@, JsonView::Text("message"@))).push(
            ("from"@, JsonView::Text("user"@)),
        ).push(
            (
                "observation"@,
                JsonView::Text("External user message injected into the runtime."@),
            ),
        ).push(("payload"@, payload)).push(
            (
                "rationale"@,
                JsonView::Text(
                    "Process the request under canonical law and current system policy rather than replying outside the runtime."@,
                ),
            ),
        ).push(("status"@, JsonView::Text("ready"@))).push(("to"@, JsonView::Text(to_key))).push(
            ("type"@, JsonView::Text("handoff"@)),
        ),
    )
}

/// A message of the user to a role, as an action.
pub fn build_user_handoff_action(to_key: &str, message: &str) -> (r: Json)
    ensures
        r@ == handoff(to_key@, message@),
{
    let p = and(members(), "reply_to", string("user"));
    let p = and(p, "summary", string(message));
    let p = and(p, "user_message", string(message));
    let ms = and(members(), "action", string("message"));
    let ms = and(ms, "from", string("user"));
    let ms = and(ms, "observation", string("External user message injected into the runtime."));
    let ms = and(ms, "payload", object(p));
    let ms = and(
        ms,
        "rationale",
        string(
            "Process the request under canonical law and current system policy rather than replying outside the runtime.",
        ),
    );
    let ms = and(ms, "status", string("ready"));
    let ms = and(ms, "to", string(to_key));
    let ms = and(ms, "type", string("handoff"));
    object(ms)
}

/// A message of the user to a role, printed.
pub fn build_user_handoff_action_text(to_key: &str, message: &str) -> (r: String)
    ensures
        r@ == json_text::pretty(json_text::settled(handoff(to_key@, message@))),
{
    pretty_text(&build_user_handoff_action(to_key, message))
}

/// A file of the state directory that belongs to a role.
pub open spec fn role_file(
    state_dir: Seq<char>,
    head: Seq<char>,
    to_key: Seq<char>,
    tail: Seq<char>,
) -> Seq<char> {
    text::below(state_dir, head + to_key + tail)
}

fn write_role_file(state_dir: &str, head: &str, to_key: &str, tail: &str) -> (r: String)
    ensures
        r@ == role_file(state_dir@, head@, to_key@, tail@),
{
    let mut name = head.to_owned();
    name.append(to_key);
    name.append(tail);
    join_path(state_dir, name.as_str())
}

/// The file that holds the last message to a role.
pub open spec fn message_file(state_dir: Seq<char>, to_key: Seq<char>) -> Seq<char> {
    role_file(state_dir, "last_message_to_"@, to_key, ".json"@)
}

/// The file that wakes a role.
pub open spec fn wakeup_file(state_dir: Seq<char>, to_key: Seq<char>) -> Seq<char> {
    role_file(state_dir, "wakeup_"@, to_key, ".flag"@)
}

/// What is written for a role when a user writes to it: a message and what wakes the
/// role, each with its path and its path below the workspace.
#[derive(Debug)]
pub struct Projections {
    pub message_path: String,
    pub message_name: String,
    pub wakeup_path: String,
    pub wakeup_name: String,
}

/// Where a message of a user to a role is written.
pub fn user_message_projections(state_dir: &str, to_key: &str) -> (r: Projections)
    ensures
        r.message_path@ == message_file(state_dir@, to_key@),
        r.message_name@ == role_file("agent_state"@, "last_message_to_"@, to_key@, ".json"@),
        r.wakeup_path@ == wakeup_file(state_dir@, to_key@),
        r.wakeup_name@ == role_file("agent_state"@, "wakeup_"@, to_key@, ".flag"@),
{
    Projections {
        message_path: write_role_file(state_dir, "last_message_to_", to_key, ".json"),
        message_name: write_role_file("agent_state", "last_message_to_", to_key, ".json"),
        wakeup_path: write_role_file(state_dir, "wakeup_", to_key, ".flag"),
        wakeup_name: write_role_file("agent_state", "wakeup_", to_key, ".flag"),
    }
}

/// What is recorded when a user writes to a role.
pub fn inbound_message(to_key: &str, action_text: &str, signature: String) -> (r: EffectEvent)
    ensures
        r matches EffectEvent::InboundMessageRecorded {
            from_role,
            to_role,
            message,
            signature: signed,
        } && from_role@ == "user"@ && to_role@ == to_key@ && message@ == action_text@ && signed
            == signature,
{
    EffectEvent::InboundMessageRecorded {
        from_role: "user".to_owned(),
        to_role: to_key.to_owned(),
        message: action_text.to_owned(),
        signature,
    }
}

/// What the user is told once a message is delivered.
pub open spec fn receipt(state_dir: Seq<char>, to_role: Seq<char>) -> JsonView {
    let to_key = role_key(to_role);
    JsonView::Object(
        json::no_members().push(("delivered_to"@, JsonView::Text(to_key))).push(
            ("message_path"@, JsonView::Text(message_file(state_dir, to_key))),
        ).push(("ok"@, JsonView::Bool(true))).push(
            ("wakeup_flag"@, JsonView::Text(wakeup_file(state_dir, to_key))),
        ),
    )
}

/// What the user is told once a message is delivered.
pub fn build_receipt(state_dir: &str, to_role: &str) -> (r: Json)
    ensures
        r@ == receipt(state_dir@, to_role@),
{
    let to_key = sanitize_role(to_role);
    let places = user_message_projections(state_dir, to_key.as_str());
    let ms = and(members(), "delivered_to", string(to_key.as_str()));
    let ms = and(ms, "message_path", string(places.message_path.as_str()));
    let ms = and(ms, "ok", boolean(true));
    let ms = and(ms, "wakeup_flag", string(places.wakeup_path.as_str()));
    object(ms)
}

/// The key of a role holds nothing but letters and digits of ASCII and underscores.
pub proof fn law_a_role_key_is_a_file_name(role: Seq<char>, i: int)
    requires
        0 <= i < role_key(role).len(),
    ensures
        text::ascii_alphanumeric(role_key(role)[i]) || role_key(role)[i] == '_',
{
}

} // verus!
