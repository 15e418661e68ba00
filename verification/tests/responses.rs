use chocopy_wasm::{failure_response, parse, typecheck};
use std::collections::BTreeMap;

/// A rendering that fails: a map whose keys are pairs has no JSON form.
fn failed_rendering() -> Result<String, String> {
    let mut table: BTreeMap<(u8, u8), u8> = BTreeMap::new();
    table.insert((1, 2), 3);
    serde_json::to_string(&table).map_err(|error| error.to_string())
}

/// The message of an error that holds double quotes.
fn quoted_message() -> String {
    serde_json::from_str::<u8>("\"a\"").unwrap_err().to_string()
}

/// The `error` field of a failure object, as a reader of JSON sees it.
fn error_field(response: &str) -> String {
    let value: serde_json::Value = serde_json::from_str(response).unwrap();
    let object = value.as_object().unwrap();
    assert_eq!(object.len(), 1);
    object.get("error").unwrap().as_str().unwrap().to_string()
}

#[test]
fn failure_response_frames_the_message() {
    assert_eq!(
        failure_response("key must be a string"),
        "{\"error\":\"Serialization failed: key must be a string\"}"
    );
}

#[test]
fn failure_response_of_empty_message() {
    assert_eq!(failure_response(""), "{\"error\":\"Serialization failed: \"}");
}

#[test]
fn failure_response_escapes_quotes_and_backslashes() {
    assert_eq!(
        failure_response("a \"b\" \\ c"),
        "{\"error\":\"Serialization failed: a \\\"b\\\" \\\\ c\"}"
    );
    assert_eq!(failure_response("\""), "{\"error\":\"Serialization failed: \\\"\"}");
    assert_eq!(failure_response("\\"), "{\"error\":\"Serialization failed: \\\\\"}");
}

#[test]
fn failure_response_escapes_control_characters() {
    assert_eq!(
        failure_response("a\u{8}b\tc\nd\u{c}e\rf"),
        "{\"error\":\"Serialization failed: a\\bb\\tc\\nd\\fe\\rf\"}"
    );
    assert_eq!(
        failure_response("\u{0}\u{1}\u{b}\u{e}\u{10}\u{1a}\u{1f}"),
        "{\"error\":\"Serialization failed: \\u0000\\u0001\\u000b\\u000e\\u0010\\u001a\\u001f\"}"
    );
}

#[test]
fn failure_response_keeps_plain_characters() {
    assert_eq!(
        failure_response(" /'\u{7f}défaut ✗ 𝄞"),
        "{\"error\":\"Serialization failed:  /'\u{7f}défaut ✗ 𝄞\"}"
    );
}

#[test]
fn failure_response_reads_back_as_one_field() {
    let mut message = String::new();
    for code in 0u32..0x100 {
        message.push(char::from_u32(code).unwrap());
    }
    message.push_str("✗𝄞\u{2028}\u{ffff}\u{10ffff}");
    let response = failure_response(&message);
    assert_eq!(error_field(&response), format!("Serialization failed: {}", message));
}

#[test]
fn failure_response_writes_each_character_as_a_json_writer_does() {
    for code in 0u32..0x100 {
        let message = char::from_u32(code).unwrap().to_string();
        let written = serde_json::to_string(&format!("Serialization failed: {}", message)).unwrap();
        assert_eq!(failure_response(&message), format!("{{\"error\":{}}}", written));
    }
}

#[test]
fn failure_responses_differ_where_messages_differ() {
    assert_ne!(failure_response("\\n"), failure_response("\n"));
    assert_ne!(failure_response("\\\""), failure_response("\""));
    assert_ne!(failure_response("\\u0001"), failure_response("\u{1}"));
}

#[test]
fn parse_returns_the_rendered_tree_unchanged() {
    let tree = "{\"kind\":\"Program\",\"location\":[1,1,1,1],\"declarations\":[],\"statements\":[],\"errors\":{\"errors\":[],\"kind\":\"Errors\",\"location\":[0,0,0,0]}}";
    assert_eq!(parse(Ok(tree.to_string())), tree);
}

#[test]
fn parse_returns_an_empty_rendering_unchanged() {
    assert_eq!(parse(Ok(String::new())), "");
}

#[test]
fn parse_does_not_escape_a_rendered_tree() {
    let tree = "{\"message\":\"a \\\"b\\\"\\n\"}";
    assert_eq!(parse(Ok(tree.to_string())), tree);
}

#[test]
fn parse_passes_on_what_the_renderer_wrote() {
    let rendered = serde_json::to_string(&vec![1u8, 2, 3]).map_err(|error| error.to_string());
    assert_eq!(parse(rendered), "[1,2,3]");
}

#[test]
fn parse_keeps_a_tree_with_syntax_diagnostics() {
    let tree = "{\"kind\":\"Program\",\"errors\":{\"errors\":[{\"kind\":\"CompilerError\",\"location\":[2,1,2,4],\"message\":\"Unexpected indentation\",\"syntax\":true}]}}";
    assert_eq!(parse(Ok(tree.to_string())), tree);
}

#[test]
fn parse_reports_a_failed_rendering() {
    assert_eq!(
        parse(failed_rendering()),
        "{\"error\":\"Serialization failed: key must be a string\"}"
    );
}

#[test]
fn parse_failure_carries_the_message_escaped() {
    let message = quoted_message();
    assert_eq!(message, "invalid type: string \"a\", expected u8 at line 1 column 3");
    let response = parse(Err(message.clone()));
    assert_eq!(
        response,
        "{\"error\":\"Serialization failed: invalid type: string \\\"a\\\", expected u8 at line 1 column 3\"}"
    );
    assert_eq!(error_field(&response), format!("Serialization failed: {}", message));
}

#[test]
fn parse_failure_differs_from_the_bare_message() {
    let response = parse(failed_rendering());
    assert_ne!(response, "key must be a string");
    assert!(response.starts_with("{\"error\":\"Serialization failed: "));
    assert!(response.ends_with("\"}"));
}

#[test]
fn typecheck_returns_the_rendered_tree_unchanged() {
    let typed = "{\"kind\":\"Program\",\"statements\":[{\"kind\":\"ExprStmt\",\"expr\":{\"kind\":\"IntegerLiteral\",\"inferredType\":{\"kind\":\"ClassValueType\",\"className\":\"int\"},\"value\":1}}],\"errors\":{\"errors\":[]}}";
    assert_eq!(typecheck(Ok(typed.to_string())), typed);
}

#[test]
fn typecheck_keeps_a_tree_with_type_diagnostics() {
    let typed = "{\"kind\":\"Program\",\"errors\":{\"errors\":[{\"kind\":\"CompilerError\",\"location\":[1,1,1,11],\"message\":\"Expected type `int`; got type `str`\",\"syntax\":false}]}}";
    assert_eq!(typecheck(Ok(typed.to_string())), typed);
}

#[test]
fn typecheck_reports_a_failed_rendering() {
    assert_eq!(
        typecheck(failed_rendering()),
        "{\"error\":\"Serialization failed: key must be a string\"}"
    );
}

#[test]
fn typecheck_failure_carries_the_message_escaped() {
    let message = serde_json::from_str::<u8>("").unwrap_err().to_string();
    assert_eq!(
        typecheck(Err(message)),
        "{\"error\":\"Serialization failed: EOF while parsing a value at line 1 column 0\"}"
    );
    let response = typecheck(Err("expected `\"`\n".to_string()));
    assert_eq!(response, "{\"error\":\"Serialization failed: expected `\\\"`\\n\"}");
    assert_eq!(error_field(&response), "Serialization failed: expected `\"`\n");
}

#[test]
fn answers_are_the_same_on_every_run() {
    let tree = "{\"kind\":\"Program\"}";
    assert_eq!(parse(Ok(tree.to_string())), parse(Ok(tree.to_string())));
    assert_eq!(typecheck(Ok(tree.to_string())), typecheck(Ok(tree.to_string())));
    assert_eq!(parse(failed_rendering()), parse(failed_rendering()));
    assert_eq!(typecheck(failed_rendering()), typecheck(failed_rendering()));
    assert_eq!(parse(Err(quoted_message())), parse(Err(quoted_message())));
}
