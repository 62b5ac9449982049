//! Messages that carry a result to the role that comes next.

use crate::flags;
use crate::flags::take_flag_value_or;
use crate::invalid_action;
use crate::invalid_action::{default_message_route, MessageRoute};
use crate::json;
use crate::json::{and, copy_json, get, get_text, members, object, string, Json, JsonView};
use crate::json_text;
use crate::json_text::{parse_json, pretty_text};
use crate::text;
use crate::text::{first_line, trim};
use vstd::prelude::*;

verus! {

/// The route of a message of a role, with the parts that flags give.
pub open spec fn route_fields(args: Seq<Seq<char>>, role: Seq<char>) -> invalid_action::RouteView {
    let route = invalid_action::default_route(role);
    invalid_action::route_of(
        route.from,
        flags::flag_value_or(args, "--to"@, route.to_role),
        flags::flag_value_or(args, "--type"@, route.msg_type),
        flags::flag_value_or(args, "--status"@, route.status),
    )
}

/// The route of a message of a role, with the parts that flags give.
pub fn resolve_route_fields(args: &Vec<String>, role: &str) -> (r: MessageRoute)
    ensures
        r@ == route_fields(text::texts(args@), role@),
{
    let (from, to_role, msg_type, status) = default_message_route(role);
    MessageRoute {
        from: from.to_owned(),
        to_role: take_flag_value_or(args, "--to", to_role),
        msg_type: take_flag_value_or(args, "--type", msg_type),
        status: take_flag_value_or(args, "--status", status),
    }
}

/// The summary of an input: its own, else the first line of its output. An empty one
/// does not count.
pub open spec fn summary_of(input: JsonView) -> Seq<char> {
    let found = match json::text_field(input, "summary"@) {
        Some(s) => s,
        None => match json::text_field(input, "output"@) {
            Some(s) => text::trimmed(text::first_line_of(s)),
            None => ""@,
        },
    };
    if found.len() == 0 {
        "pipeline message"@
    } else {
        found
    }
}

fn write_summary(input: &Json) -> (r: String)
    ensures
        r@ == summary_of(input@),
{
    proof {
        reveal_strlit("");
    }
    let found = match get_text(input, "summary") {
        Some(s) => s.to_owned(),
        None => match get_text(input, "output") {
            Some(s) => trim(first_line(s).as_str()),
            None => "".to_owned(),
        },
    };
    if text::to_chars(found.as_str()).len() == 0 {
        "pipeline message".to_owned()
    } else {
        found
    }
}

/// The payload of a message about an input: its own, where it has one, else its
/// summary and the whole input.
pub open spec fn payload_for(input: JsonView) -> JsonView {
    match json::field(input, "payload"@) {
        Some(JsonView::Object(ms)) => JsonView::Object(ms),
        _ => JsonView::Object(
            json::no_members().push(("input"@, input)).push(
                ("summary"@, JsonView::Text(summary_of(input))),
            ),
        ),
    }
}

/// The payload of a message about an input.
pub fn build_route_payload(input: &Json) -> (r: Json)
    ensures
        r@ == payload_for(input@),
{
    match get(input, "payload") {
        Some(p) => {
            proof {
                json::lemma_json_view(*p);
            }
            match p {
                Json::Object(_) => {
                    return copy_json(p);
                },
                _ => {},
            }
        },
        None => {},
    }
    let ms = and(members(), "input", copy_json(input));
    let ms = and(ms, "summary", string(write_summary(input).as_str()));
    object(ms)
}

/// A message of a route with a payload.
pub open spec fn message_of(route: invalid_action::RouteView, payload: JsonView) -> JsonView {
    JsonView::Object(
        json::no_members().push(("action"@, JsonView::Text("message"@))).push(
            ("from"@, JsonView::Text(route.from)),
        ).push(("payload"@, payload)).push(("status"@, JsonView::Text(route.status))).push(
            ("to"@, JsonView::Text(route.to_role)),
        ).push(("type"@, JsonView::Text(route.msg_type))),
    )
}

/// A message of a route with a payload.
pub fn build_message(route: &MessageRoute, payload: Json) -> (r: Json)
    ensures
        r@ == message_of(route@, payload@),
{
    let ms = and(members(), "action", string("message"));
    let ms = and(ms, "from", string(route.from.as_str()));
    let ms = and(ms, "payload", payload);
    let ms = and(ms, "status", string(route.status.as_str()));
    let ms = and(ms, "to", string(route.to_role.as_str()));
    let ms = and(ms, "type", string(route.msg_type.as_str()));
    object(ms)
}

/// The message about an input.
pub open spec fn routed_message(
    args: Seq<Seq<char>>,
    role: Seq<char>,
    input: JsonView,
) -> JsonView {
    message_of(route_fields(args, role), payload_for(input))
}

/// The message about an input that is given as a text, printed; nothing where the
/// text is no JSON.
pub fn route_text(args: &Vec<String>, role: &str, raw: &str) -> (r: Option<String>)
    ensures
        match json_text::read(raw@) {
            Some(input) => r matches Some(t) && t@ == json_text::pretty(
                json_text::settled(routed_message(text::texts(args@), role@, input)),
            ),
            None => r is None,
        },
{
    match parse_json(raw) {
        Some(input) => {
            let route = resolve_route_fields(args, role);
            let payload = build_route_payload(&input);
            Some(pretty_text(&build_message(&route, payload)))
        },
        None => None,
    }
}

/// Without flags a message takes the route of its role.
pub proof fn law_the_role_routes_where_no_flag_does(args: Seq<Seq<char>>, role: Seq<char>)
    requires
        flags::flag_value(args, "--to"@) is None,
        flags::flag_value(args, "--type"@) is None,
        flags::flag_value(args, "--status"@) is None,
    ensures
        route_fields(args, role) == invalid_action::default_route(role),
{
}

} // verus!
