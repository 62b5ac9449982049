//! The actions that may follow an action.

use crate::json;
use crate::json::{and, array, copy_json, get, get_text, members, object, string, Json, JsonView};
use crate::json_text;
use crate::json_text::{parse_json, pretty_text};
use crate::text::same;
use vstd::prelude::*;

verus! {

/// The kind of an action, empty where it names none.
pub open spec fn kind_of(action: JsonView) -> Seq<char> {
    match json::text_field(action, "action"@) {
        Some(kind) => kind,
        None => ""@,
    }
}

/// The kind of an action, empty where it names none.
pub fn action_kind(action: &Json) -> (r: &str)
    ensures
        r@ == kind_of(action@),
{
    match get_text(action, "action") {
        Some(kind) => kind,
        None => "",
    }
}

/// The action that follows an action of a kind, and what for.
pub open spec fn simple_spec(kind: Seq<char>) -> Option<(Seq<char>, Seq<char>)> {
    if kind == "apply_patch"@ {
        Some(("cargo_test"@, "Verify the patch compiles and tests pass."@))
    } else if kind == "rename_symbol"@ {
        Some(("cargo_test"@, "Run tests after rename to ensure no regressions."@))
    } else if kind == "run_command"@ {
        Some(("message"@, "Summarize command output and decide next step."@))
    } else if kind == "read_file"@ {
        Some(("message"@, "Summarize findings and choose the next concrete action."@))
    } else {
        None
    }
}

/// A pair of texts.
pub open spec fn pair(p: Option<(&str, &str)>) -> Option<(Seq<char>, Seq<char>)> {
    match p {
        Some((a, b)) => Some((a@, b@)),
        None => None,
    }
}

/// The action that follows an action of a kind, and what for.
pub fn simple_prediction_spec(kind: &str) -> (r: Option<(&'static str, &'static str)>)
    ensures
        pair(r) == simple_spec(kind@),
{
    if same(kind, "apply_patch") {
        Some(("cargo_test", "Verify the patch compiles and tests pass."))
    } else if same(kind, "rename_symbol") {
        Some(("cargo_test", "Run tests after rename to ensure no regressions."))
    } else if same(kind, "run_command") {
        Some(("message", "Summarize command output and decide next step."))
    } else if same(kind, "read_file") {
        Some(("message", "Summarize findings and choose the next concrete action."))
    } else {
        None
    }
}

/// The file that an action of a kind writes, and what it is read for.
pub open spec fn file_spec(kind: Seq<char>) -> Option<(Seq<char>, Seq<char>)> {
    if kind == "symbols_index"@ {
        Some(("state/symbols.json"@, "Inspect generated symbols inventory."@))
    } else if kind == "symbols_rename_candidates"@ {
        Some(("state/rename_candidates.json"@, "Inspect generated rename candidates."@))
    } else if kind == "symbols_prepare_rename"@ {
        Some(("state/next_rename_action.json"@, "Inspect prepared rename action JSON."@))
    } else {
        None
    }
}

/// The file that an action of a kind writes, and what it is read for.
pub fn file_prediction_spec(kind: &str) -> (r: Option<(&'static str, &'static str)>)
    ensures
        pair(r) == file_spec(kind@),
{
    if same(kind, "symbols_index") {
        Some(("state/symbols.json", "Inspect generated symbols inventory."))
    } else if same(kind, "symbols_rename_candidates") {
        Some(("state/rename_candidates.json", "Inspect generated rename candidates."))
    } else if same(kind, "symbols_prepare_rename") {
        Some(("state/next_rename_action.json", "Inspect prepared rename action JSON."))
    } else {
        None
    }
}

/// An action and what for.
pub open spec fn simple_value(action: Seq<char>, intent: Seq<char>) -> JsonView {
    JsonView::Object(
        json::no_members().push(("action"@, JsonView::Text(action))).push(
            ("intent"@, JsonView::Text(intent)),
        ),
    )
}

/// An action and what for.
pub fn simple_action_prediction_value(action: &str, intent: &str) -> (r: Json)
    ensures
        r@ == simple_value(action@, intent@),
{
    let ms = and(members(), "action", string(action));
    let ms = and(ms, "intent", string(intent));
    object(ms)
}

/// One prediction.
pub fn single_prediction(prediction: Json) -> (r: Vec<Json>)
    ensures
        json::items_view(r@) == seq![prediction@],
{
    let mut r: Vec<Json> = Vec::new();
    r.push(prediction);
    assert(json::items_view(r@) =~= seq![prediction@]);
    r
}

/// One prediction of an action and what for.
pub fn simple_action_prediction(action: &str, intent: &str) -> (r: Vec<Json>)
    ensures
        json::items_view(r@) == seq![simple_value(action@, intent@)],
{
    single_prediction(simple_action_prediction_value(action, intent))
}

/// A file to be read: the one that the action names as its output, else the usual
/// one.
pub open spec fn file_value(action: JsonView, default: Seq<char>, intent: Seq<char>) -> JsonView {
    let path = match json::text_field(action, "out"@) {
        Some(out) => out,
        None => default,
    };
    JsonView::Object(
        json::no_members().push(("action"@, JsonView::Text("read_file"@))).push(
            ("intent"@, JsonView::Text(intent)),
        ).push(("path"@, JsonView::Text(path))),
    )
}

/// One prediction of a file to be read.
pub fn read_file_prediction_for_output(action: &Json, default: &str, intent: &str) -> (r: Vec<Json>)
    ensures
        json::items_view(r@) == seq![file_value(action@, default@, intent@)],
{
    let path = match get_text(action, "out") {
        Some(out) => out,
        None => default,
    };
    let ms = and(members(), "action", string("read_file"));
    let ms = and(ms, "intent", string(intent));
    let ms = and(ms, "path", string(path));
    single_prediction(object(ms))
}

/// The file that an action of a kind gives to read.
pub fn file_prediction_for_kind(kind: &str, action: &Json) -> (r: Option<Vec<Json>>)
    ensures
        match file_spec(kind@) {
            Some((default, intent)) => r matches Some(v) && json::items_view(v@) == seq![
                file_value(action@, default, intent),
            ],
            None => r is None,
        },
{
    match file_prediction_spec(kind) {
        Some((default, intent)) => Some(read_file_prediction_for_output(action, default, intent)),
        None => None,
    }
}

/// What follows an action by its kind.
pub open spec fn predicted_by_kind(action: JsonView) -> Seq<JsonView> {
    let kind = kind_of(action);
    match simple_spec(kind) {
        Some((name, intent)) => seq![simple_value(name, intent)],
        None => match file_spec(kind) {
            Some((default, intent)) => seq![file_value(action, default, intent)],
            None => Seq::empty(),
        },
    }
}

/// What follows an action by its kind.
pub fn predicted_next_actions_from_kind(action: &Json) -> (r: Vec<Json>)
    ensures
        json::items_view(r@) == predicted_by_kind(action@),
{
    let kind = action_kind(action);
    match simple_prediction_spec(kind) {
        Some((name, intent)) => simple_action_prediction(name, intent),
        None => match file_prediction_for_kind(kind, action) {
            Some(v) => v,
            None => {
                let none: Vec<Json> = Vec::new();
                assert(json::items_view(none@) =~= Seq::<JsonView>::empty());
                none
            },
        },
    }
}

/// What follows an action: what it predicts itself, else by its kind.
pub open spec fn predicted(action: JsonView) -> Seq<JsonView> {
    match json::field(action, "predicted_next_actions"@) {
        Some(JsonView::Array(items)) => items,
        _ => predicted_by_kind(action),
    }
}

/// What follows an action.
pub fn predicted_next_actions(action: &Json) -> (r: Vec<Json>)
    ensures
        json::items_view(r@) == predicted(action@),
{
    match get(action, "predicted_next_actions") {
        Some(found) => {
            let copy = copy_json(found);
            proof {
                json::lemma_json_view(*found);
                json::lemma_json_view(copy);
            }
            match copy {
                Json::Array(items) => items,
                _ => predicted_next_actions_from_kind(action),
            }
        },
        None => predicted_next_actions_from_kind(action),
    }
}

/// The action in an input: the object under `action`, where there is one, else the
/// input itself. A bare action has a text there, and a result wraps its action.
pub open spec fn input_action(input: JsonView) -> JsonView {
    match json::field(input, "action"@) {
        Some(JsonView::Object(ms)) => JsonView::Object(ms),
        _ => input,
    }
}

/// The predictions for an input, as a value.
pub open spec fn output_of(input: JsonView) -> JsonView {
    JsonView::Object(
        json::no_members().push(
            ("predicted_next_actions"@, JsonView::Array(predicted(input_action(input)))),
        ),
    )
}

/// The predictions for an input, as a value.
pub fn prediction_output(input: &Json) -> (r: Json)
    ensures
        r@ == output_of(input@),
{
    let action = match get(input, "action") {
        Some(action) => {
            proof {
                json::lemma_json_view(*action);
            }
            match action {
                Json::Object(_) => action,
                _ => input,
            }
        },
        None => input,
    };
    let predictions = array(predicted_next_actions(action));
    object(and(members(), "predicted_next_actions", predictions))
}

/// The predictions for an input that is given as a text, printed; nothing where the
/// text is no JSON.
pub fn predict_from_text(raw: &str) -> (r: Option<String>)
    ensures
        match json_text::read(raw@) {
            Some(input) => r matches Some(t) && t@ == json_text::pretty(
                json_text::settled(output_of(input)),
            ),
            None => r is None,
        },
{
    match parse_json(raw) {
        Some(input) => Some(pretty_text(&prediction_output(&input))),
        None => None,
    }
}

/// An action that predicts what follows it is taken at its word.
pub proof fn law_own_predictions_come_first(action: JsonView, items: Seq<JsonView>)
    requires
        json::field(action, "predicted_next_actions"@) == Some(JsonView::Array(items)),
    ensures
        predicted(action) == items,
{
}

} // verus!
