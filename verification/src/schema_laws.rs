//! What is said of an action that does not fit its schema.

use crate::invalid_action;
use crate::invalid_action::Findings;
use crate::json;
use crate::json::JsonView;
use crate::text;
use vstd::prelude::*;

verus! {

// ---------------------------------------------------------------------------
// Lists without repetition
// ---------------------------------------------------------------------------

/// A message that is said stands in the list, once, and all others stay.
pub proof fn law_a_message_is_said_once(
    diff: Seq<Seq<char>>,
    b: bool,
    msg: Seq<char>,
    m: Seq<char>,
)
    ensures
        invalid_action::with_unique_if(diff, b, msg).contains(m) <==> diff.contains(m) || (b && m
            == msg),
        diff.no_duplicates() ==> invalid_action::with_unique_if(diff, b, msg).no_duplicates(),
        invalid_action::with_unique(diff, msg).contains(m) <==> diff.contains(m) || m == msg,
        diff.no_duplicates() ==> invalid_action::with_unique(diff, msg).no_duplicates(),
{
    let r = invalid_action::with_unique(diff, msg);
    if !diff.contains(msg) {
        assert(r[diff.len() as int] == msg);
        if diff.contains(m) {
            let i = choose|i: int| 0 <= i < diff.len() && diff[i] == m;
            assert(r[i] == m);
        }
        if r.contains(m) {
            let i = choose|i: int| 0 <= i < r.len() && r[i] == m;
            if i < diff.len() {
                assert(diff[i] == m);
            }
        }
        if diff.no_duplicates() {
            assert forall|i: int, j: int| 0 <= i < j < r.len() implies r[i] != r[j] by {
                if j == diff.len() {
                    assert(diff.contains(diff[i]));
                }
            }
        }
    }
}

// ---------------------------------------------------------------------------
// Any action
// ---------------------------------------------------------------------------

/// The value is there and is no text.
pub open spec fn of_another_type(v: Option<JsonView>) -> bool {
    match v {
        Some(JsonView::Text(_)) => false,
        Some(_) => true,
        None => false,
    }
}

/// The value is a text with something in it.
pub open spec fn says_something(v: Option<JsonView>) -> bool {
    match v {
        Some(JsonView::Text(t)) => !text::blank(t),
        _ => false,
    }
}

/// The field that an action of a kind works on.
pub open spec fn works_on(kind: Seq<char>, field: Seq<char>) -> bool {
    ||| kind == "run_command"@ && field == "cmd"@
    ||| kind == "read_file"@ && field == "path"@
    ||| kind == "apply_patch"@ && field == "patch"@
    ||| kind == "python"@ && field == "code"@
    ||| kind == "cargo_test"@ && field == "crate"@
}

proof fn lemma_kinds()
    ensures
        "run_command"@ != "read_file"@,
        "run_command"@ != "apply_patch"@,
        "run_command"@ != "python"@,
        "run_command"@ != "cargo_test"@,
        "read_file"@ != "apply_patch"@,
        "read_file"@ != "python"@,
        "read_file"@ != "cargo_test"@,
        "apply_patch"@ != "python"@,
        "apply_patch"@ != "cargo_test"@,
        "python"@ != "cargo_test"@,
{
    reveal_strlit("run_command");
    reveal_strlit("read_file");
    reveal_strlit("apply_patch");
    reveal_strlit("python");
    reveal_strlit("cargo_test");
    assert("run_command"@.len() == 11 && "read_file"@.len() == 9 && "apply_patch"@.len() == 11
        && "python"@.len() == 6 && "cargo_test"@.len() == 10);
    assert("run_command"@[0] == 'r' && "apply_patch"@[0] == 'a');
}

/// The field of a kind is the one that it works on.
pub proof fn law_a_kind_works_on_its_field(kind: Seq<char>, field: Seq<char>)
    ensures
        invalid_action::subject_field(kind) == Some(field) <==> works_on(kind, field),
{
    lemma_kinds();
}

/// What is said of any action is what was said before, that a field holds no text
/// where one belongs, that the rationale or the action is blank or missing, what its
/// patch breaks, and that the field that it works on is missing or holds no text.
pub proof fn law_what_is_said_of_any_action(
    diff: Seq<Seq<char>>,
    action: JsonView,
    kind: Seq<char>,
    scope: Option<Seq<char>>,
    m: Seq<char>,
)
    ensures
        ({
            let named = json::field(action, "action"@);
            let why = json::field(action, "rationale"@);
            let seen = json::field(action, "observation"@);
            let empty = why matches Some(JsonView::Text(t)) && text::blank(t);
            let said = invalid_action::general_diff(diff, action, kind, scope);
            said.contains(m) <==> {
                ||| diff.contains(m)
                ||| of_another_type(named) && m == "field type mismatch: "@ + "action"@
                    + " (expected string)"@
                ||| empty && m == "missing field: "@ + "rationale"@
                ||| of_another_type(why) && m == "field type mismatch: "@ + "rationale"@
                    + " (expected string)"@
                ||| of_another_type(seen) && m == "field type mismatch: "@ + "observation"@
                    + " (expected string)"@
                ||| scope == Some(m) && kind == "apply_patch"@ && json::text_field(
                    action,
                    "patch"@,
                ) is Some
                ||| !says_something(named) && m == "missing field: "@ + "action"@
                ||| !says_something(named) && m == "unsupported action: missing or unknown action"@
                ||| subject_said(action, kind, m)
            }
        }),
{
    let named = json::field(action, "action"@);
    let why = json::field(action, "rationale"@);
    let seen = json::field(action, "observation"@);
    let d1 = invalid_action::with_unique_if(
        diff,
        invalid_action::no_text(named),
        invalid_action::type_mismatch("action"@),
    );
    law_a_message_is_said_once(
        diff,
        invalid_action::no_text(named),
        invalid_action::type_mismatch("action"@),
        m,
    );
    let d2 = invalid_action::with_unique_if(
        d1,
        invalid_action::blank_text(why),
        invalid_action::missing("rationale"@),
    );
    law_a_message_is_said_once(
        d1,
        invalid_action::blank_text(why),
        invalid_action::missing("rationale"@),
        m,
    );
    let d3 = invalid_action::with_unique_if(
        d2,
        invalid_action::no_text(why),
        invalid_action::type_mismatch("rationale"@),
    );
    law_a_message_is_said_once(
        d2,
        invalid_action::no_text(why),
        invalid_action::type_mismatch("rationale"@),
        m,
    );
    let d4 = invalid_action::with_unique_if(
        d3,
        invalid_action::no_text(seen),
        invalid_action::type_mismatch("observation"@),
    );
    law_a_message_is_said_once(
        d3,
        invalid_action::no_text(seen),
        invalid_action::type_mismatch("observation"@),
        m,
    );
    let patched = kind == "apply_patch"@ && json::text_field(action, "patch"@) is Some;
    let d5 = match scope {
        Some(e) => invalid_action::with_unique_if(d4, patched, e),
        None => d4,
    };
    match scope {
        Some(e) => {
            law_a_message_is_said_once(d4, patched, e, m);
        },
        None => {},
    }
    let unknown = !invalid_action::filled_text(named);
    let d6 = invalid_action::with_unique_if(d5, unknown, invalid_action::missing("action"@));
    law_a_message_is_said_once(d5, unknown, invalid_action::missing("action"@), m);
    let d7 = invalid_action::with_unique_if(
        d6,
        unknown,
        "unsupported action: missing or unknown action"@,
    );
    law_a_message_is_said_once(
        d6,
        unknown,
        "unsupported action: missing or unknown action"@,
        m,
    );
    match invalid_action::subject_field(kind) {
        Some(field) => {
            law_a_kind_works_on_its_field(kind, field);
            lemma_string_field(d7, action, field, m);
            if subject_said(action, kind, m) {
                let f = choose|f: Seq<char>| #[trigger]
                    works_on(kind, f) && field_said(action, f, m);
                law_a_kind_works_on_its_field(kind, f);
            }
        },
        None => {
            if subject_said(action, kind, m) {
                let f = choose|f: Seq<char>| #[trigger]
                    works_on(kind, f) && field_said(action, f, m);
                law_a_kind_works_on_its_field(kind, f);
            }
        },
    }
}

/// What is said of a field that has to hold a text: that it is missing where it is not
/// there or blank, and that its type does not fit where it is no text.
pub open spec fn field_said(action: JsonView, field: Seq<char>, m: Seq<char>) -> bool {
    match json::field(action, field) {
        Some(JsonView::Text(t)) => text::blank(t) && m == "missing field: "@ + field,
        Some(_) => m == "field type mismatch: "@ + field + " (expected string)"@,
        None => m == "missing field: "@ + field,
    }
}

pub open spec fn subject_said(action: JsonView, kind: Seq<char>, m: Seq<char>) -> bool {
    exists|f: Seq<char>| #[trigger] works_on(kind, f) && field_said(action, f, m)
}

proof fn lemma_string_field(
    diff: Seq<Seq<char>>,
    action: JsonView,
    field: Seq<char>,
    m: Seq<char>,
)
    ensures
        invalid_action::with_string_field(diff, action, field).contains(m) <==> diff.contains(m)
            || field_said(action, field, m),
{
    match json::field(action, field) {
        Some(JsonView::Text(t)) => {
            law_a_message_is_said_once(
                diff,
                text::blank(t),
                invalid_action::missing(field),
                m,
            );
        },
        Some(_) => {
            law_a_message_is_said_once(diff, true, invalid_action::type_mismatch(field), m);
        },
        None => {
            law_a_message_is_said_once(diff, true, invalid_action::missing(field), m);
        },
    }
}

/// A plan of a planner that speaks of diagnostics, of what is stale or of violations
/// has to name what was seen in the source.
pub proof fn law_a_plan_on_diagnostics_names_the_source(
    action: JsonView,
    role: Seq<char>,
    kind: Seq<char>,
)
    ensures
        ({
            let a = if let Some(t) = json::text_field(action, "observation"@) { t } else { ""@ };
            let b = if let Some(t) = json::text_field(action, "rationale"@) { t } else { ""@ };
            let said = text::lower_ascii(a + "\n"@ + b);
            let relies = text::has_text(said, "diagnostic"@) || text::has_text(said, "stale"@)
                || text::has_text(said, "violation"@);
            let seen = text::has_text(said, "read_file"@) || text::has_text(said, "source"@)
                || text::has_text(said, "verified"@) || text::has_text(said, "current-cycle"@)
                || text::has_text(said, "rg "@) || text::has_text(said, "run_command"@);
            let planner = role == "planner"@ || role == "mini_planner"@;
            invalid_action::unvalidated_plan(action, role, kind) <==> kind == "plan"@ && planner
                && relies && !seen
        }),
{
}

// ---------------------------------------------------------------------------
// Messages
// ---------------------------------------------------------------------------

proof fn lemma_required_text(
    diff: Seq<Seq<char>>,
    action: JsonView,
    field: Seq<char>,
    m: Seq<char>,
)
    ensures
        invalid_action::with_required_text(diff, action, field).contains(m) <==> diff.contains(m)
            || (!says_something(json::field(action, field)) && m == "missing field: "@ + field),
{
    law_a_message_is_said_once(
        diff,
        !invalid_action::filled_text(json::field(action, field)),
        invalid_action::missing(field),
        m,
    );
}

/// A message has to say whom it is from and to, its type, its status and its
/// rationale, and to have an object as its payload.
pub proof fn law_what_each_message_has_to_have(
    diff: Seq<Seq<char>>,
    action: JsonView,
    m: Seq<char>,
)
    ensures
        ({
            let payload = json::field(action, "payload"@);
            let object = payload matches Some(p) && p is Object;
            let other = payload matches Some(p) && !(p is Object);
            invalid_action::required_diff(diff, action).contains(m) <==> {
                ||| diff.contains(m)
                ||| !says_something(json::field(action, "from"@)) && m == "missing field: "@
                    + "from"@
                ||| !says_something(json::field(action, "to"@)) && m == "missing field: "@ + "to"@
                ||| !says_something(json::field(action, "type"@)) && m == "missing field: "@
                    + "type"@
                ||| !says_something(json::field(action, "status"@)) && m == "missing field: "@
                    + "status"@
                ||| !says_something(json::field(action, "rationale"@)) && m == "missing field: "@
                    + "rationale"@
                ||| !object && m == "missing field: "@ + "payload"@
                ||| other && m == "payload must be object"@
                ||| other && m == "field type mismatch: payload (expected object)"@
            }
        }),
{
    let payload = json::field(action, "payload"@);
    let other = payload is Some && !(payload->0 is Object);
    let d1 = invalid_action::with_required_text(diff, action, "from"@);
    lemma_required_text(diff, action, "from"@, m);
    let d2 = invalid_action::with_required_text(d1, action, "to"@);
    lemma_required_text(d1, action, "to"@, m);
    let d3 = invalid_action::with_required_text(d2, action, "type"@);
    lemma_required_text(d2, action, "type"@, m);
    let d4 = invalid_action::with_required_text(d3, action, "status"@);
    lemma_required_text(d3, action, "status"@, m);
    let absent = !(payload matches Some(JsonView::Object(_)));
    let d5 = invalid_action::with_unique_if(d4, absent, invalid_action::missing("payload"@));
    law_a_message_is_said_once(d4, absent, invalid_action::missing("payload"@), m);
    let d6 = invalid_action::with_unique_if(d5, other, "payload must be object"@);
    law_a_message_is_said_once(d5, other, "payload must be object"@, m);
    let d7 = invalid_action::with_unique_if(
        d6,
        other,
        "field type mismatch: payload (expected object)"@,
    );
    law_a_message_is_said_once(d6, other, "field type mismatch: payload (expected object)"@, m);
    lemma_required_text(d7, action, "rationale"@, m);
}

/// The type is that of a blocker, in any case of its letters.
pub open spec fn is_blocker(t: Option<Seq<char>>) -> bool {
    match t {
        Some(s) => text::lower_ascii(s) == "blocker"@,
        None => false,
    }
}

/// The status is that of a blocker, in any case of its letters.
pub open spec fn is_blocked(t: Option<Seq<char>>) -> bool {
    match t {
        Some(s) => text::lower_ascii(s) == "blocked"@,
        None => false,
    }
}

/// What is said of a part of a route: that it is not in lower case.
pub open spec fn casing_said(action: JsonView, field: Seq<char>, m: Seq<char>) -> bool {
    match json::text_field(action, field) {
        Some(v) => v != text::lowercase(v) && m == "role casing invalid: "@ + field + "="@ + v,
        None => false,
    }
}

/// What is said of a field of the payload of a blocker.
pub open spec fn blocker_field_said(action: JsonView, field: Seq<char>, m: Seq<char>) -> bool {
    let v = match json::field(action, "payload"@) {
        Some(p) => if p is Object {
            json::field(p, field)
        } else {
            None
        },
        None => None,
    };
    if of_another_type(v) {
        m == "field type mismatch: "@ + ("payload."@ + field) + " (expected string)"@
    } else {
        !says_something(v) && m == "payload."@ + field + " missing"@
    }
}

proof fn lemma_casing(diff: Seq<Seq<char>>, action: JsonView, field: Seq<char>, m: Seq<char>)
    ensures
        invalid_action::with_casing(diff, action, field).contains(m) <==> diff.contains(m)
            || casing_said(action, field, m),
{
    match json::text_field(action, field) {
        Some(v) => {
            law_a_message_is_said_once(
                diff,
                v != text::lowercase(v),
                "role casing invalid: "@ + field + "="@ + v,
                m,
            );
        },
        None => {},
    }
}

proof fn lemma_blocker_field(
    diff: Seq<Seq<char>>,
    action: JsonView,
    field: Seq<char>,
    m: Seq<char>,
)
    ensures
        invalid_action::with_blocker_field(diff, action, field).contains(m) <==> diff.contains(m)
            || blocker_field_said(action, field, m),
{
    let v = invalid_action::payload_field(action, field);
    law_a_message_is_said_once(
        diff,
        true,
        invalid_action::type_mismatch("payload."@ + field),
        m,
    );
    law_a_message_is_said_once(
        diff,
        !invalid_action::filled_text(v),
        "payload."@ + field + " missing"@,
        m,
    );
}

/// Beyond what each message has to have: what the strict validation says, parts of the
/// route that are not in lower case, a type and a status of which only one is that of a
/// blocker, a payload without a summary, and fields of a blocker outside of the payload.
/// A blocker has to say in its payload what blocks, what shows it and what is needed.
pub proof fn law_what_is_said_of_a_message(
    diff: Seq<Seq<char>>,
    action: JsonView,
    error: Option<Seq<char>>,
    m: Seq<char>,
)
    ensures
        ({
            let t = json::text_field(action, "type"@);
            let s = json::text_field(action, "status"@);
            let blocks = is_blocker(t) || is_blocked(s);
            let summary = match json::field(action, "payload"@) {
                Some(p) => if p is Object {
                    json::field(p, "summary"@)
                } else {
                    None
                },
                None => None,
            };
            let outside = json::field(action, "blocker"@) is Some || json::field(
                action,
                "evidence"@,
            ) is Some || json::field(action, "required_action"@) is Some;
            invalid_action::message_diff(diff, action, error).contains(m) <==> {
                ||| invalid_action::required_diff(diff, action).contains(m)
                ||| error == Some(m)
                ||| casing_said(action, "from"@, m)
                ||| casing_said(action, "to"@, m)
                ||| casing_said(action, "type"@, m)
                ||| casing_said(action, "status"@, m)
                ||| t is Some && s is Some && is_blocker(t) != is_blocked(s) && m
                    == "type/status mismatch: type="@ + t->0 + " status="@ + s->0
                ||| !says_something(summary) && m == "payload.summary missing"@
                ||| outside && m
                    == "blocker fields must be inside payload: blocker/evidence/required_action"@
                ||| blocks && blocker_field_said(action, "blocker"@, m)
                ||| blocks && blocker_field_said(action, "evidence"@, m)
                ||| blocks && blocker_field_said(action, "required_action"@, m)
            }
        }),
{
    let t = json::text_field(action, "type"@);
    let s = json::text_field(action, "status"@);
    let d1 = invalid_action::required_diff(diff, action);
    let d2 = match error {
        Some(e) => invalid_action::with_unique(d1, e),
        None => d1,
    };
    match error {
        Some(e) => {
            law_a_message_is_said_once(d1, true, e, m);
        },
        None => {},
    }
    let d3 = invalid_action::with_casing(d2, action, "from"@);
    lemma_casing(d2, action, "from"@, m);
    let d4 = invalid_action::with_casing(d3, action, "to"@);
    lemma_casing(d3, action, "to"@, m);
    let d5 = invalid_action::with_casing(d4, action, "type"@);
    lemma_casing(d4, action, "type"@, m);
    let d6 = invalid_action::with_casing(d5, action, "status"@);
    lemma_casing(d5, action, "status"@, m);
    let d7 = match (t, s) {
        (Some(a), Some(b)) => invalid_action::with_unique_if(
            d6,
            invalid_action::blocker_type(t) != invalid_action::blocked_status(s),
            invalid_action::mismatch(a, b),
        ),
        _ => d6,
    };
    match (t, s) {
        (Some(a), Some(b)) => {
            law_a_message_is_said_once(
                d6,
                invalid_action::blocker_type(t) != invalid_action::blocked_status(s),
                invalid_action::mismatch(a, b),
                m,
            );
        },
        _ => {},
    }
    let unsummed = !invalid_action::filled_text(invalid_action::payload_field(action, "summary"@));
    let d8 = invalid_action::with_unique_if(d7, unsummed, "payload.summary missing"@);
    law_a_message_is_said_once(d7, unsummed, "payload.summary missing"@, m);
    let outside = json::field(action, "blocker"@) is Some || json::field(action, "evidence"@)
        is Some || json::field(action, "required_action"@) is Some;
    let d9 = invalid_action::with_unique_if(
        d8,
        outside,
        "blocker fields must be inside payload: blocker/evidence/required_action"@,
    );
    law_a_message_is_said_once(
        d8,
        outside,
        "blocker fields must be inside payload: blocker/evidence/required_action"@,
        m,
    );
    let d10 = invalid_action::with_blocker_field(d9, action, "blocker"@);
    lemma_blocker_field(d9, action, "blocker"@, m);
    let d11 = invalid_action::with_blocker_field(d10, action, "evidence"@);
    lemma_blocker_field(d10, action, "evidence"@, m);
    lemma_blocker_field(d11, action, "required_action"@, m);
}

/// What is said of an action is what is said of any action, of a plan that relies on
/// diagnostics, and, of a message alone, what is said of messages.
pub proof fn law_only_messages_are_held_to_messages(
    action: JsonView,
    role: Seq<char>,
    found: Findings,
)
    ensures
        ({
            let kind = if let Some(k) = json::text_field(action, "action"@) { k } else {
                "unknown"@
            };
            let general = invalid_action::general_diff(
                text::texts(found.schema_diff@),
                action,
                kind,
                text::optional(found.scope_error),
            );
            let planned = if invalid_action::unvalidated_plan(action, role, kind) {
                invalid_action::with_unique(general, invalid_action::plan_validation_message())
            } else {
                general
            };
            invalid_action::whole_diff(action, role, found) == if kind == "message"@ {
                invalid_action::message_diff(
                    planned,
                    action,
                    text::optional(found.message_error),
                )
            } else {
                planned
            }
        }),
{
}

// ---------------------------------------------------------------------------
// Routes and corrections
// ---------------------------------------------------------------------------

/// Executors hand over to the verifier, the verifier and diagnostics report to the
/// planner, a planner plans for the executor, and one that works alone talks to itself;
/// any other role counts as an executor.
pub proof fn law_messages_go_where_their_role_sends_them(role: Seq<char>)
    ensures
        ({
            let r = invalid_action::default_route(role);
            let known = text::has_prefix(role, "executor"@);
            &&& known ==> r.from == "executor"@ && r.to_role == "verifier"@ && r.msg_type
                == "handoff"@ && r.status == "complete"@
            &&& !known && role == "verifier"@ ==> r.from == "verifier"@ && r.to_role == "planner"@
                && r.msg_type == "verification"@ && r.status == "verified"@
            &&& !known && role == "diagnostics"@ && role != "verifier"@ ==> r.from
                == "diagnostics"@ && r.to_role == "planner"@ && r.msg_type == "diagnostics"@
                && r.status == "complete"@
            &&& !known && role != "verifier"@ && role != "diagnostics"@ && role == "solo"@ ==> r.from
                == "solo"@ && r.to_role == "solo"@ && r.msg_type == "result"@ && r.status
                == "complete"@
            &&& !known && role != "verifier"@ && role != "diagnostics"@ && role != "solo"@ && (role
                == "planner"@ || role == "mini_planner"@) ==> r.from == "planner"@ && r.to_role
                == "executor"@ && r.msg_type == "plan"@ && r.status == "complete"@
            &&& !known && role != "verifier"@ && role != "diagnostics"@ && role != "solo"@ && role
                != "planner"@ && role != "mini_planner"@ ==> r.from == "executor"@ && r.to_role
                == "verifier"@ && r.msg_type == "handoff"@ && r.status == "complete"@
        }),
{
}

/// The field that an error names as missing is read back.
pub proof fn law_a_missing_field_is_read_back(field: Seq<char>)
    ensures
        invalid_action::missing_field_of("message missing non-empty '"@ + field + "'"@) == Some(
            field,
        ),
{
    reveal_strlit("'");
    let head = "message missing non-empty '"@;
    let all = head + field + "'"@;
    assert("'"@.len() == 1);
    assert(all.take(head.len() as int) =~= head);
    let rest = all.skip(head.len() as int);
    assert(rest =~= field + "'"@);
    assert(rest.skip(rest.len() - 1) =~= "'"@);
    assert(rest.subrange(rest.len() - 1, rest.len() as int) =~= "'"@);
    assert(all.subrange(0, head.len() as int) =~= head);
    assert(rest.take(all.len() - head.len() - 1) =~= field);
}

/// An error is corrected where it names an unsupported action or what a message lacks,
/// and left alone else.
pub proof fn law_known_errors_are_corrected(action: JsonView, err: Seq<char>, role: Seq<char>)
    ensures
        invalid_action::correction(action, err, role) is Some <==> text::has_text(
            err,
            "unsupported action"@,
        ) || invalid_action::missing_field_of(err) is Some || text::has_text(
            err,
            "message missing object payload"@,
        ),
{
}

/// Every kind of action has to name itself, its rationale and what it predicts, and a
/// kind that changes something has to ask its question.
pub proof fn law_expected_fields(kind: Seq<char>)
    ensures
        ({
            let fields = invalid_action::expected_fields_of(kind);
            &&& fields.len() >= 3
            &&& fields[0] == "action"@
            &&& fields[fields.len() - 2] == "rationale"@
            &&& fields[fields.len() - 1] == "predicted_next_actions"@
            &&& kind == "apply_patch"@ || kind == "plan"@ || kind == "objectives"@ || kind
                == "issue"@ || kind == "rename_symbol"@ ==> fields[fields.len() - 3] == "question"@
            &&& forall|f: Seq<char>| #[trigger] works_on(kind, f) ==> fields[1] == f
        }),
{
    lemma_kinds();
    lemma_more_kinds();
}

proof fn lemma_more_kinds()
    ensures
        "plan"@ != "run_command"@,
        "plan"@ != "read_file"@,
        "plan"@ != "python"@,
        "plan"@ != "cargo_test"@,
        "plan"@ != "apply_patch"@,
        "plan"@ != "rename_symbol"@,
        "objectives"@ != "run_command"@,
        "objectives"@ != "read_file"@,
        "objectives"@ != "rename_symbol"@,
        "objectives"@ != "apply_patch"@,
        "objectives"@ != "cargo_test"@,
        "objectives"@ != "python"@,
        "objectives"@ != "plan"@,
        "issue"@ != "run_command"@,
        "issue"@ != "read_file"@,
        "issue"@ != "rename_symbol"@,
        "issue"@ != "apply_patch"@,
        "issue"@ != "cargo_test"@,
        "issue"@ != "python"@,
        "issue"@ != "plan"@,
        "rename_symbol"@ != "run_command"@,
        "rename_symbol"@ != "read_file"@,
        "rename_symbol"@ != "apply_patch"@,
        "rename_symbol"@ != "python"@,
        "rename_symbol"@ != "cargo_test"@,
{
    reveal_strlit("run_command");
    reveal_strlit("read_file");
    reveal_strlit("apply_patch");
    reveal_strlit("python");
    reveal_strlit("cargo_test");
    reveal_strlit("plan");
    reveal_strlit("objectives");
    reveal_strlit("issue");
    reveal_strlit("rename_symbol");
    assert("run_command"@.len() == 11 && "read_file"@.len() == 9 && "apply_patch"@.len() == 11
        && "python"@.len() == 6 && "cargo_test"@.len() == 10 && "plan"@.len() == 4
        && "objectives"@.len() == 10 && "issue"@.len() == 5 && "rename_symbol"@.len() == 13);
    assert("objectives"@[0] == 'o' && "cargo_test"@[0] == 'c');
}

} // verus!
