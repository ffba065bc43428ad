use deepagents::provider::llm::StructuredOutputSpec;
use deepagents::runtime::structured_output::{parse_structured_output, validate_value_against_schema};

fn j(text: &str) -> serde_json::Value {
    serde_json::from_str(text).unwrap()
}

fn spec(schema: serde_json::Value) -> StructuredOutputSpec {
    StructuredOutputSpec { name: "final_answer".to_string(), schema, description: None, strict: true }
}

fn summary_schema() -> serde_json::Value {
    j(r#"{
        "type": "object",
        "properties": { "summary": { "type": "string" } },
        "required": ["summary"],
        "additionalProperties": false
    }"#)
}

#[test]
fn structured_output_accepts_value_that_matches_schema() {
    let out = parse_structured_output(&spec(summary_schema()), r#"{"summary":"done"}"#).unwrap();
    assert_eq!(out, j(r#"{"summary":"done"}"#));
}

#[test]
fn structured_output_rejects_missing_required_fields() {
    let err = parse_structured_output(&spec(summary_schema()), r#"{"other":"x"}"#).unwrap_err();
    assert!(err.to_string().contains("missing required field `summary`"));
}

#[test]
fn structured_output_rejects_additional_properties_when_disallowed() {
    let err = parse_structured_output(&spec(summary_schema()), r#"{"summary":"ok","extra":1}"#).unwrap_err();
    assert!(err.to_string().contains("unexpected property `extra`"));
}

#[test]
fn structured_output_errors_name_their_cause() {
    assert_eq!(parse_structured_output(&spec(summary_schema()), "  ").unwrap_err(), "structured_output_empty_response");
    let err = parse_structured_output(&spec(summary_schema()), "{nope").unwrap_err();
    assert!(err.starts_with("structured_output_invalid_json: "));
    assert_eq!(
        parse_structured_output(&spec(summary_schema()), r#"{"summary": 3}"#).unwrap_err(),
        "structured_output_schema_validation_failed: $.summary: expected string"
    );
    assert_eq!(
        parse_structured_output(&spec(summary_schema()), "[1]").unwrap_err(),
        "structured_output_schema_validation_failed: $: expected object"
    );
}

#[test]
fn schema_keywords_are_checked_in_order() {
    let schema = j(r#"{"enum": [1, "a", {"k": [true]}]}"#);
    assert!(validate_value_against_schema(&schema, &j(r#"{"k": [true]}"#), "$").is_ok());
    assert!(validate_value_against_schema(&schema, &j("1"), "$").is_ok());
    assert_eq!(validate_value_against_schema(&schema, &j("1.0"), "$").unwrap_err(), "$: value not in enum");
    let schema = j(r#"{"type": ["integer", "null"]}"#);
    assert!(validate_value_against_schema(&schema, &j("-4"), "$").is_ok());
    assert!(validate_value_against_schema(&schema, &j("null"), "$").is_ok());
    assert_eq!(validate_value_against_schema(&schema, &j("2.5"), "$").unwrap_err(), "$: expected integer|null");
    let schema = j(r#"{"type": [1]}"#);
    assert_eq!(validate_value_against_schema(&schema, &j("2"), "$").unwrap_err(), "$: expected unknown");
    let schema = j(r#"{"items": {"type": "string"}}"#);
    assert_eq!(validate_value_against_schema(&schema, &j(r#"["a", 2]"#), "$").unwrap_err(), "$[1]: expected string");
    assert_eq!(validate_value_against_schema(&schema, &j("{}"), "$").unwrap_err(), "$: expected array");
    let schema = j(r#"{"required": [1]}"#);
    assert_eq!(
        validate_value_against_schema(&schema, &j("{}"), "$").unwrap_err(),
        "$: schema required entries must be strings"
    );
    let schema = j(r#"{"additionalProperties": false}"#);
    assert_eq!(validate_value_against_schema(&schema, &j(r#"{"b":1,"a":2}"#), "$").unwrap_err(), "$: unexpected property `a`");
    assert!(validate_value_against_schema(&j("true"), &j("3"), "$").is_ok());
    let nested = j(r#"{"properties": {"p": {"properties": {"q": {"type": "boolean"}}}}}"#);
    assert_eq!(
        validate_value_against_schema(&nested, &j(r#"{"p": {"q": 1}}"#), "$").unwrap_err(),
        "$.p.q: expected boolean"
    );
}

use deepagents::skills::input_schema::{validate_package_skill_input, validate_package_skill_input_schema};

#[test]
fn package_skill_schemas_are_checked() {
    assert!(validate_package_skill_input_schema(&j(r#"{"properties": {"q": {"type": "string"}}, "required": ["q"]}"#)).is_ok());
    assert!(validate_package_skill_input_schema(&j("{}")).is_ok());
    let cases = [
        ("[]", "schema must be object"),
        (r#"{"type": "array"}"#, "schema type must be object"),
        (r#"{"properties": []}"#, "properties must be object"),
        (r#"{"properties": {"q": 1}}"#, "property schema for q must be object"),
        (r#"{"properties": {"q": {}}}"#, "property q missing type"),
        (r#"{"properties": {"q": {"type": "date"}}}"#, "property q has unsupported type: date"),
        (r#"{"required": "q"}"#, "required must be array"),
        (r#"{"properties": {}, "required": [1]}"#, "required entries must be strings"),
        (r#"{"required": ["q"]}"#, "required fields require properties definitions"),
        (r#"{"properties": {}, "required": ["q"]}"#, "required field not declared in properties: q"),
        (r#"{"additionalProperties": "no"}"#, "additionalProperties must be boolean"),
    ];
    for (schema, expected) in cases {
        assert_eq!(validate_package_skill_input_schema(&j(schema)).unwrap_err(), expected, "{schema}");
    }
}

#[test]
fn package_skill_inputs_are_checked() {
    let schema = j(r#"{"properties": {"q": {"type": "string"}, "n": {"type": "integer"}}, "required": ["q"], "additionalProperties": false}"#);
    assert!(validate_package_skill_input(&schema, &j(r#"{"q": "x", "n": 2}"#)).is_ok());
    assert_eq!(validate_package_skill_input(&schema, &j("[]")).unwrap_err(), "input must be object");
    assert_eq!(validate_package_skill_input(&schema, &j(r#"{"n": 2}"#)).unwrap_err(), "missing required field: q");
    assert_eq!(validate_package_skill_input(&schema, &j(r#"{"q": "x", "z": 1}"#)).unwrap_err(), "unexpected field: z");
    assert_eq!(
        validate_package_skill_input(&schema, &j(r#"{"q": "x", "n": 2.5}"#)).unwrap_err(),
        "invalid type for n: expected integer"
    );
    let open = j(r#"{"properties": {"q": {"type": "string"}}}"#);
    assert!(validate_package_skill_input(&open, &j(r#"{"q": "x", "z": 1}"#)).is_ok());
    assert_eq!(validate_package_skill_input(&j("3"), &j("{}")).unwrap_err(), "schema must be object");
}

use deepagents::runtime::stable_hash::{canonicalize_json, sha256_hex, stable_json_sha256_hex};

#[test]
fn sha256_hex_matches_known_digests() {
    assert_eq!(sha256_hex(b"abc"), "ba7816bf8f01cfea414140de5dae2223b00361a396177a9cb410ff61f20015ad");
    assert_eq!(sha256_hex(b""), "e3b0c44298fc1c149afbf4c8996fb92427ae41e4649b934ca495991b7852b855");
}

#[test]
fn stable_hash_ignores_member_order() {
    let a = j(r#"{"b": 1, "a": [2, {"d": null, "c": -1.5}]}"#);
    let b = j(r#"{"a": [2, {"c": -1.5, "d": null}], "b": 1}"#);
    assert_eq!(canonicalize_json(&a), a);
    assert_eq!(stable_json_sha256_hex(&a), stable_json_sha256_hex(&b));
    assert_eq!(stable_json_sha256_hex(&a), sha256_hex(serde_json::to_string(&a).unwrap().as_bytes()));
    assert_ne!(stable_json_sha256_hex(&a), stable_json_sha256_hex(&j("[]")));
}
