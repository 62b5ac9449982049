use canon_mini_agent::json::Json;
use canon_mini_agent::json_text::{parse_json, pretty_text};
use canon_mini_agent::step::{
    action_kind, file_prediction_for_kind, file_prediction_spec, predict_from_text,
    predicted_next_actions, predicted_next_actions_from_kind, simple_action_prediction,
    simple_action_prediction_value, simple_prediction_spec,
};

fn json(text: &str) -> Json {
    parse_json(text).expect("JSON")
}

fn text<'a>(value: &'a Json, key: &str) -> &'a str {
    canon_mini_agent::json::get_text(value, key).expect("text")
}

#[test]
fn predicted_next_actions_preserves_existing_fast_path() {
    let input = json(
        r#"{"predicted_next_actions": [{"action": "message", "intent": "precomputed"}]}"#,
    );

    let result = predicted_next_actions(&input);
    assert_eq!(result.len(), 1);
    assert_eq!(text(&result[0], "action"), "message");
    assert_eq!(text(&result[0], "intent"), "precomputed");
}

#[test]
fn action_kind_defaults_to_empty_string() {
    let input = json(r#"{"out": "unused"}"#);
    assert_eq!(action_kind(&input), "");
}

#[test]
fn predicted_next_actions_from_kind_preserves_apply_patch_mapping() {
    let input = json(r#"{"action": "apply_patch"}"#);
    let result = predicted_next_actions_from_kind(&input);
    assert_eq!(result.len(), 1);
    assert_eq!(text(&result[0], "action"), "cargo_test");
    assert_eq!(text(&result[0], "intent"), "Verify the patch compiles and tests pass.");
}

#[test]
fn simple_prediction_spec_preserves_apply_patch_mapping() {
    assert_eq!(
        simple_prediction_spec("apply_patch"),
        Some(("cargo_test", "Verify the patch compiles and tests pass."))
    );
}

#[test]
fn write_prediction_output_serializes_pretty_json() {
    let output = json(r#"{"predicted_next_actions": []}"#);
    let encoded = pretty_text(&output);
    assert!(encoded.contains("predicted_next_actions"));
}

#[test]
fn file_prediction_spec_preserves_symbols_index_mapping() {
    assert_eq!(
        file_prediction_spec("symbols_index"),
        Some((
            "state/symbols.json",
            "Inspect generated symbols inventory.",
        ))
    );
}

#[test]
fn file_prediction_for_kind_preserves_symbols_index_output() {
    let input = json(r#"{"out": "custom/path.json"}"#);
    let prediction = file_prediction_for_kind("symbols_index", &input).unwrap();
    assert_eq!(prediction.len(), 1);
    assert_eq!(text(&prediction[0], "action"), "read_file");
    assert_eq!(text(&prediction[0], "path"), "custom/path.json");
    assert_eq!(text(&prediction[0], "intent"), "Inspect generated symbols inventory.");
}

#[test]
fn predicted_next_actions_falls_back_to_file_prediction_for_symbols_index() {
    let input = json(r#"{"action": "symbols_index", "out": "custom/path.json"}"#);
    let result = predicted_next_actions(&input);
    assert_eq!(result.len(), 1);
    assert_eq!(text(&result[0], "action"), "read_file");
    assert_eq!(text(&result[0], "path"), "custom/path.json");
    assert_eq!(text(&result[0], "intent"), "Inspect generated symbols inventory.");
}

#[test]
fn simple_action_prediction_preserves_action_and_intent() {
    let prediction = simple_action_prediction("message", "keep behavior");
    assert_eq!(prediction.len(), 1);
    assert_eq!(text(&prediction[0], "action"), "message");
    assert_eq!(text(&prediction[0], "intent"), "keep behavior");
}

#[test]
fn simple_action_prediction_value_preserves_action_and_intent() {
    let prediction = simple_action_prediction_value("cargo_test", "verify");
    assert_eq!(text(&prediction, "action"), "cargo_test");
    assert_eq!(text(&prediction, "intent"), "verify");
}

#[test]
fn predictions_for_a_text_are_printed() {
    let out = predict_from_text(r#"{"action": {"action": "run_command"}, "output": "ok"}"#).unwrap();
    assert_eq!(
        out,
        "{\n  \"predicted_next_actions\": [\n    {\n      \"action\": \"message\",\n      \"intent\": \"Summarize command output and decide next step.\"\n    }\n  ]\n}"
    );
    assert_eq!(
        predict_from_text(r#"{"action": "apply_patch"}"#).unwrap(),
        "{\n  \"predicted_next_actions\": [\n    {\n      \"action\": \"cargo_test\",\n      \"intent\": \"Verify the patch compiles and tests pass.\"\n    }\n  ]\n}"
    );
    assert!(predict_from_text("not json").is_none());
    assert_eq!(predict_from_text("{}").unwrap(), "{\n  \"predicted_next_actions\": []\n}");
}
