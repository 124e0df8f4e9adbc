use stagehand::extract::validate_against_schema;
use stagehand::json::JsonValue;
use stagehand::references::references_end;

fn json(text: &str) -> JsonValue {
    JsonValue::parse(text).unwrap()
}

fn ends(text: &str) -> bool {
    references_end(&json(text))
}

fn meets(schema: &str, data: &str) -> bool {
    assert!(ends(schema));
    validate_against_schema(&json(schema), &json(data)).is_ok()
}

#[test]
fn schemas_without_references_end() {
    assert!(ends("{}"));
    assert!(ends("true"));
    assert!(ends(r#"{"allOf": [{"not": {"type": "string"}}, {"if": true, "then": false}]}"#));
}

#[test]
fn references_to_definitions_end() {
    let schema = r##"{"properties": {"a": {"$ref": "#/definitions/b"}},
        "definitions": {"b": {"anyOf": [{"$ref": "#/definitions/c"}, {"type": "null"}]},
        "c": {"type": "string"}}}"##;
    assert!(meets(schema, r#"{"a": "x"}"#));
    assert!(!meets(schema, r#"{"a": 1}"#));
}

#[test]
fn references_to_the_whole_end_below_a_property() {
    let schema = r##"{"properties": {"next": {"$ref": "#"}}, "required": ["v"]}"##;
    assert!(meets(schema, r#"{"v": 1, "next": {"v": 2}}"#));
    assert!(!meets(schema, r#"{"v": 1, "next": {}}"#));
}

#[test]
fn references_in_a_circle_do_not_end() {
    assert!(!ends(r##"{"$ref": "#"}"##));
    assert!(!ends(r##"{"allOf": [{"$ref": "#/allOf/0"}]}"##));
    assert!(!ends(r##"{"definitions": {"a/b": {"$ref": "#/definitions/a~1b"}}}"##));
    assert!(!ends(
        r##"{"definitions": {"a": {"not": {"$ref": "#/definitions/b"}},
            "b": {"oneOf": [{"$ref": "#/definitions/a"}]}}}"##
    ));
    assert!(!ends(r##"{"dependencies": {"x": {"$ref": "#"}}}"##));
    assert!(!ends(r##"{"$ref": "json-schema:///"}"##));
    assert!(!ends(r##"{"allOf": [{"$ref": "a/.."}]}"##));
}

#[test]
fn references_are_read_with_percent_signs() {
    assert!(!ends(r##"{"a": {"$ref": "#%2Fa"}, "items": {"$ref": "#%2Fa"}}"##));
    assert!(!ends(r##"{"definitions": {"a": {"$ref": "#/definitions%2fa"}}}"##));
    assert!(!ends(r##"{"definitions": {"a/b": {"$ref": "#/definitions/a%7e1b"}}}"##));
    assert!(!ends(r##"{"definitions": {"é": {"$ref": "#/definitions/%C3%A9"}}}"##));
    assert!(!ends(r##"{"definitions": {"%": {"$ref": "#/definitions/%"}}}"##));
    let schema = r##"{"items": {"$ref": "#%2Fdefinitions%2Fmy%20text"},
        "definitions": {"my text": {"type": "string"}}}"##;
    assert!(meets(schema, r#"["x"]"#));
    assert!(!meets(schema, r#"[1]"#));
}

#[test]
fn references_are_read_without_white_space() {
    assert!(!ends("{\"a\": {\"$ref\": \"#\\t/a\"}}"));
    assert!(!ends("{\"a\": {\"$ref\": \"#/\\na\"}}"));
    assert!(!ends("{\"a\": {\"$ref\": \"#%\\r2Fa\"}}"));
    assert!(!ends("{\"a\": {\"$ref\": \" #/a \"}}"));
    let schema = "{\"$schema\": \"http://json-schema.org/draft-04/schema#\",
        \"items\": {\"$ref\": \" #\\t/definitions/a \"},
        \"definitions\": {\"a\": {\"type\": \"string\"}}}";
    assert!(meets(schema, "[\"x\"]"));
    assert!(!meets(schema, "[1]"));
}

#[test]
fn references_that_lead_nowhere_end() {
    assert!(!meets(r##"{"items": {"$ref": "other"}}"##, "[1]"));
    assert!(meets(r##"{"items": {"$ref": "other"}}"##, "[]"));
    assert!(!meets(r##"{"allOf": [{"$ref": "types/other.json#/a"}]}"##, "1"));
    assert!(!meets(r##"{"allOf": [{"$ref": "#other"}]}"##, "1"));
    assert!(!meets(r##"{"allOf": [{"$ref": "#/definitions/a"}]}"##, "1"));
}

#[test]
fn references_to_names_end_outside_a_circle() {
    let schema = r##"{"properties": {"a": {"$id": "http://x/a", "type": "string"},
        "b": {"$ref": "http://x/a"}}}"##;
    assert!(meets(schema, r#"{"b": "x"}"#));
    assert!(!meets(schema, r#"{"b": 1}"#));
    assert!(ends(r##"{"$id": "http://x/y", "items": {"$ref": "#/definitions/z"}}"##));
    assert!(!ends(r##"{"$id": "http://x/y", "$ref": "http://x/y"}"##));
    assert!(!ends(r##"{"items": {"$id": "#x", "$ref": "#x"}}"##));
    assert!(!ends(r##"{"items": {"$id": "http://x/y", "$ref": "http://x/y"}}"##));
}

#[test]
fn references_to_a_draft_end() {
    let schema = r##"{"properties": {"a": {"$schema": "http://json-schema.org/draft-07/schema#",
        "$ref": "http://json-schema.org/draft-07/schema#"}}}"##;
    assert!(meets(schema, r#"{"a": {"type": "string"}}"#));
    assert!(!meets(schema, r#"{"a": {"type": 1}}"#));
}
