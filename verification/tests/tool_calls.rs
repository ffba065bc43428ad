use deepagents::provider::protocol::{normalize_provider_tool_calls, tool_calls_from_provider_calls, AgentToolCall};
use deepagents::provider::protocol::AgentStep;
use deepagents::runtime::patch_tool_calls::{patch_dangling_tool_calls, sanitize_tool_call_id, PatchToolCallsMiddleware};
use deepagents::runtime::tool_compat::{normalize_tool_call_for_execution, NormalizedToolCall};
use deepagents::types::{Message, ToolCall};

fn j(text: &str) -> serde_json::Value {
    serde_json::from_str(text).unwrap()
}

fn call(name: &str, arguments: serde_json::Value, id: Option<&str>) -> AgentToolCall {
    AgentToolCall {
        tool_name: name.to_string(),
        arguments,
        call_id: id.map(|s| s.to_string()),
    }
}

#[test]
fn sanitize_maps_unsafe_characters() {
    assert_eq!(sanitize_tool_call_id("call 1"), "call_1");
    assert_eq!(sanitize_tool_call_id("héllo/x"), "h_llo_x");
    assert_eq!(sanitize_tool_call_id("ok-id_1.2"), "ok-id_1.2");
}

#[test]
fn sanitize_breaks_double_dots() {
    assert_eq!(sanitize_tool_call_id("a..b"), "a._b");
    assert_eq!(sanitize_tool_call_id("..."), "._.");
    assert_eq!(sanitize_tool_call_id("a...."), "a._._");
}

#[test]
fn sanitize_empty_and_long_ids() {
    assert_eq!(sanitize_tool_call_id(""), "_");
    let long = "a".repeat(200);
    assert_eq!(sanitize_tool_call_id(&long), "a".repeat(128));
}

#[test]
fn sanitize_is_idempotent_on_examples() {
    for id in ["x y z", "a..b", "é..", "", "call-7"] {
        let once = sanitize_tool_call_id(id);
        assert_eq!(sanitize_tool_call_id(&once), once);
    }
}

fn assistant_with_calls(calls: Vec<ToolCall>) -> Message {
    let mut m = Message::text("assistant", "");
    m.tool_calls = Some(calls);
    m
}

fn tool_result(id: &str) -> Message {
    let mut m = Message::text("tool", "{}");
    m.tool_call_id = Some(id.to_string());
    m
}

#[test]
fn dangling_calls_get_a_patched_result() {
    let calls = vec![
        ToolCall { id: "c1".to_string(), name: "read".to_string(), arguments: j(r#"{}"#) },
        ToolCall { id: "c2".to_string(), name: "write".to_string(), arguments: j(r#"{}"#) },
    ];
    let messages = vec![Message::text("user", "hi"), assistant_with_calls(calls), tool_result("c1")];
    let out = patch_dangling_tool_calls(messages);
    assert_eq!(out.len(), 4);
    assert_eq!(out[0].role, "user");
    assert_eq!(out[1].role, "assistant");
    let patched = &out[2];
    assert_eq!(patched.role, "tool");
    assert_eq!(patched.tool_call_id.as_deref(), Some("c2"));
    assert_eq!(patched.name.as_deref(), Some("write"));
    assert_eq!(patched.status.as_deref(), Some("patched"));
    assert_eq!(
        patched.content,
        "{\"content\":\"PATCHED_TOOL_CALL: Tool call write (c2) was cancelled - missing tool result.\",\"error\":\"tool_call_cancelled: missing tool result\",\"output\":null,\"status\":\"patched\",\"tool_call_id\":\"c2\",\"tool_name\":\"write\"}"
    );
    let parsed: serde_json::Value = serde_json::from_str(&patched.content).unwrap();
    assert_eq!(parsed["status"], "patched");
    assert_eq!(out[3].tool_call_id.as_deref(), Some("c1"));
}

#[test]
fn complete_history_is_left_as_is() {
    let calls = vec![ToolCall { id: "c1".to_string(), name: "read".to_string(), arguments: j(r#"{}"#) }];
    let messages = vec![assistant_with_calls(calls), tool_result("c1"), Message::text("assistant", "done")];
    let out = patch_dangling_tool_calls(messages);
    assert_eq!(out.len(), 3);
    assert_eq!(out[2].content, "done");
    assert!(patch_dangling_tool_calls(Vec::new()).is_empty());
}

#[test]
fn result_before_the_call_does_not_count() {
    let calls = vec![ToolCall { id: "c1".to_string(), name: "ls".to_string(), arguments: j(r#"{}"#) }];
    let messages = vec![tool_result("c1"), assistant_with_calls(calls)];
    let out = patch_dangling_tool_calls(messages);
    assert_eq!(out.len(), 3);
    assert_eq!(out[2].status.as_deref(), Some("patched"));
}

#[test]
fn provider_calls_are_normalized() {
    let calls = vec![
        call("  ", serde_json::Value::Null, None),
        call("x", serde_json::Value::String("{\"a\":1}".to_string()), Some("k")),
        call("y", serde_json::Value::String("not json".to_string()), None),
        call("z", serde_json::Value::String("[1]".to_string()), Some("")),
    ];
    let mut next = 5u64;
    let out = normalize_provider_tool_calls(calls, &mut next);
    assert_eq!(next, 7);
    assert_eq!(out[0].tool_name, "unknown");
    assert_eq!(out[0].call_id.as_deref(), Some("call-5"));
    assert_eq!(out[0].arguments, j(r#"{}"#));
    assert_eq!(out[1].call_id.as_deref(), Some("k"));
    assert_eq!(out[1].arguments, j(r#"{"a": 1}"#));
    assert_eq!(out[2].call_id.as_deref(), Some("call-6"));
    assert_eq!(out[2].arguments, serde_json::Value::String("not json".to_string()));
    assert_eq!(out[3].call_id.as_deref(), Some(""));
    assert_eq!(out[3].arguments, serde_json::Value::String("[1]".to_string()));
}

#[test]
fn provider_calls_become_conversation_calls() {
    let calls = vec![call("read", j(r#"{"p": 1}"#), Some("id1")), call("ls", j(r#"{}"#), None)];
    let out = tool_calls_from_provider_calls(&calls);
    assert_eq!(out[0].id, "id1");
    assert_eq!(out[0].name, "read");
    assert_eq!(out[0].arguments, j(r#"{"p": 1}"#));
    assert_eq!(out[1].id, "");
}

#[test]
fn execution_normalization_accepts_objects() {
    let mut next = 1u64;
    match normalize_tool_call_for_execution(call("read", j(r#"{"a": 1}"#), Some("x")), &mut next) {
        NormalizedToolCall::Valid(c) => {
            assert_eq!(c.call_id.as_deref(), Some("x"));
            assert_eq!(c.arguments, j(r#"{"a": 1}"#));
        }
        NormalizedToolCall::Invalid { .. } => panic!("expected a valid call"),
    }
    assert_eq!(next, 1);
    match normalize_tool_call_for_execution(call(" ", serde_json::Value::Null, Some("  ")), &mut next) {
        NormalizedToolCall::Valid(c) => {
            assert_eq!(c.tool_name, "unknown");
            assert_eq!(c.call_id.as_deref(), Some("call-1"));
            assert_eq!(c.arguments, j(r#"{}"#));
        }
        NormalizedToolCall::Invalid { .. } => panic!("expected a valid call"),
    }
    assert_eq!(next, 2);
    match normalize_tool_call_for_execution(call("w", serde_json::Value::String("{\"k\":true}".to_string()), None), &mut next) {
        NormalizedToolCall::Valid(c) => {
            assert_eq!(c.call_id.as_deref(), Some("call-2"));
            assert_eq!(c.arguments, j(r#"{"k": true}"#));
        }
        NormalizedToolCall::Invalid { .. } => panic!("expected a valid call"),
    }
}

#[test]
fn execution_normalization_reports_bad_arguments() {
    let mut next = 0u64;
    let cases = [
        (serde_json::Value::String("[1,2]".to_string()), "invalid_tool_call: arguments must be JSON object"),
        (serde_json::Value::String("{oops".to_string()), "invalid_tool_call: arguments must be JSON object string"),
        (j(r#"3"#), "invalid_tool_call: arguments must be object"),
        (j(r#"[1]"#), "invalid_tool_call: arguments must be object"),
    ];
    for (args, expected) in cases {
        match normalize_tool_call_for_execution(call("t", args.clone(), Some("id")), &mut next) {
            NormalizedToolCall::Invalid { call, error } => {
                assert_eq!(error, expected);
                assert_eq!(call.arguments, args);
            }
            NormalizedToolCall::Valid(_) => panic!("expected an invalid call"),
        }
    }
    assert_eq!(next, 0);
}

use deepagents::runtime::tool_errors::{parse_tool_error_string, validate_edit_args};

fn pair(a: &str, b: &str) -> (String, String) {
    (a.to_string(), b.to_string())
}

#[test]
fn tool_errors_split_into_code_and_message() {
    assert_eq!(parse_tool_error_string("command_not_allowed: rm: dangerous"), pair("rm", "dangerous"));
    assert_eq!(parse_tool_error_string("command_not_allowed:  sudo used "), pair("command_not_allowed", "sudo used"));
    assert_eq!(parse_tool_error_string("file_not_found: /x missing"), pair("file_not_found", "/x missing"));
    assert_eq!(parse_tool_error_string(" timeout-1 :  slow"), pair("timeout-1", "slow"));
    assert_eq!(parse_tool_error_string("Bad Thing: happened"), pair("unknown", "Bad Thing: happened"));
    assert_eq!(parse_tool_error_string("no colon"), pair("unknown", "no colon"));
    assert_eq!(parse_tool_error_string(": empty"), pair("unknown", ": empty"));
}

#[test]
fn edit_args_need_their_fields() {
    assert_eq!(validate_edit_args("write_file", &j("[]")).unwrap_err(), "args must be a JSON object");
    assert_eq!(
        validate_edit_args("write_file", &j(r#"{"file_path": "/a"}"#)).unwrap_err(),
        "missing required field: content"
    );
    assert_eq!(
        validate_edit_args("edit_file", &j(r#"{"file_path": "/a", "old_string": 1, "new_string": "x"}"#)).unwrap_err(),
        "missing required field: old_string"
    );
    assert!(validate_edit_args("edit_file", &j(r#"{"file_path": "/a", "old_string": "o", "new_string": "n"}"#)).is_ok());
    assert_eq!(validate_edit_args("execute", &j("{}")).unwrap_err(), "missing required field: command");
    assert!(validate_edit_args("ls", &j("{}")).is_ok());
}

use deepagents::runtime::tool_args::{truncate_tool_args, truncate_value};

#[test]
fn old_tool_arguments_are_cut() {
    let long = "x".repeat(30);
    let call = |name: &str| ToolCall {
        id: format!("id-{name}"),
        name: name.to_string(),
        arguments: j(&format!(r#"{{"content": "{long}", "n": 5, "list": ["{long}", true]}}"#)),
    };
    let mut old = Message::text("assistant", "old");
    old.tool_calls = Some(vec![call("write_file"), call("ls")]);
    let mut recent = Message::text("assistant", "recent");
    recent.tool_calls = Some(vec![call("execute")]);
    let out = truncate_tool_args(vec![old, Message::text("user", "u"), recent], 2, 10, "~");
    let cut = format!("{}~{}", "x".repeat(5), "x".repeat(5));
    let calls = out[0].tool_calls.as_ref().unwrap();
    assert_eq!(calls[0].arguments, j(&format!(r#"{{"content": "{cut}", "n": 5, "list": ["{cut}", true]}}"#)));
    assert_eq!(calls[1].arguments, call("ls").arguments);
    assert_eq!(out[2].tool_calls.as_ref().unwrap()[0].arguments, call("execute").arguments);
    assert_eq!(out[1].content, "u");
}

#[test]
fn short_values_are_left_whole() {
    let v = j(r#"{"a": "short", "b": [1, null]}"#);
    assert_eq!(truncate_value(&v, 10, "..."), v);
    assert_eq!(truncate_value(&j(r#""abcdefghij""#), 4, "-"), j(r#""ab-ij""#));
}

#[test]
fn patch_middleware_normalizes_step_calls() {
    let mw = PatchToolCallsMiddleware::new();
    let mut next = 4u64;
    let step = AgentStep::ToolCalls {
        calls: vec![AgentToolCall { tool_name: " ".to_string(), arguments: serde_json::Value::Null, call_id: None }],
    };
    match mw.patch_provider_step(step, &mut next) {
        AgentStep::ToolCalls { calls } => {
            assert_eq!(calls[0].tool_name, "unknown");
            assert_eq!(calls[0].call_id.as_deref(), Some("call-4"));
            assert_eq!(calls[0].arguments, j("{}"));
        },
        other => panic!("unexpected {:?}", other),
    }
    assert_eq!(next, 5);
    match mw.patch_provider_step(AgentStep::FinalText { text: "x".to_string() }, &mut next) {
        AgentStep::FinalText { text } => assert_eq!(text, "x"),
        other => panic!("unexpected {:?}", other),
    }
    assert_eq!(next, 5);
    let calls = vec![ToolCall { id: "c9".to_string(), name: "ls".to_string(), arguments: j("{}") }];
    assert_eq!(mw.patch_history(vec![assistant_with_calls(calls)]).len(), 2);
    assert_eq!(PatchToolCallsMiddleware::default(), mw);
}
