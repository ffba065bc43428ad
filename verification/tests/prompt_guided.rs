use deepagents::provider::llm::ToolChoice;
use deepagents::provider::prompt_guided::{
    extract_tool_payload, step_tool_payload, validate_prompt_guided_tool_choice, PromptGuidedConfig, PromptGuidedEnvelope,
};
use deepagents::provider::protocol::{AgentStep, AgentToolCall};
use deepagents::runtime::protocol::ToolSpec;
use deepagents::types::Message;

fn j(text: &str) -> serde_json::Value {
    serde_json::from_str(text).unwrap()
}

fn spec(name: &str) -> ToolSpec {
    ToolSpec {
        name: name.to_string(),
        description: format!("{name} tool"),
        input_schema: j(r#"{"type": "object"}"#),
    }
}

fn call(name: &str) -> AgentToolCall {
    AgentToolCall { tool_name: name.to_string(), arguments: j(r#"{}"#), call_id: None }
}

fn config(choice: ToolChoice) -> PromptGuidedConfig {
    PromptGuidedConfig::new(choice, vec![spec("read"), spec("write")])
}

#[test]
fn payload_is_the_trimmed_text_between_tags() {
    assert_eq!(
        extract_tool_payload("  <tool_call> {\"x\":1} </tool_call>\n").as_deref(),
        Some("{\"x\":1}")
    );
    assert_eq!(extract_tool_payload("<tool_call>  </tool_call>"), None);
    assert_eq!(extract_tool_payload("hello"), None);
    assert_eq!(extract_tool_payload("<tool_call>{}"), None);
    assert_eq!(extract_tool_payload("x <tool_call>{}</tool_call>"), None);
}

#[test]
fn tool_choice_must_fit_the_tools() {
    assert!(validate_prompt_guided_tool_choice(&ToolChoice::Auto, &[]).is_ok());
    assert_eq!(
        validate_prompt_guided_tool_choice(&ToolChoice::Required, &[]).unwrap_err(),
        "prompt_guided_tool_choice_without_tools"
    );
    assert_eq!(
        validate_prompt_guided_tool_choice(&ToolChoice::Named { name: "ls".to_string() }, &[spec("read")]).unwrap_err(),
        "prompt_guided_unknown_tool_choice: ls"
    );
    assert!(validate_prompt_guided_tool_choice(&ToolChoice::Named { name: "read".to_string() }, &[spec("read")]).is_ok());
}

#[test]
fn plain_text_depends_on_the_choice() {
    let step = AgentStep::FinalText { text: "hi".to_string() };
    assert!(matches!(config(ToolChoice::Auto).parse_step(step, None), Ok(AgentStep::FinalText { text }) if text == "hi"));
    let step = AgentStep::AssistantMessage { text: "hi".to_string() };
    assert_eq!(
        config(ToolChoice::Required).parse_step(step, None).unwrap_err(),
        "prompt_guided_tool_call_required"
    );
    let step = AgentStep::FinalText { text: "hi".to_string() };
    assert_eq!(
        config(ToolChoice::Named { name: "read".to_string() }).parse_step(step, None).unwrap_err(),
        "prompt_guided_named_tool_required: read"
    );
}

#[test]
fn payload_calls_become_a_tool_call_step() {
    let text = "<tool_call>{\"tool_calls\":[{\"name\":\"read\"}]}</tool_call>".to_string();
    let step = AgentStep::FinalText { text };
    assert!(step_tool_payload(&step).is_some());
    let env = PromptGuidedEnvelope { content: "  ".to_string(), tool_calls: vec![call("read")] };
    match config(ToolChoice::Named { name: "read".to_string() }).parse_step(step, Some(Ok(env))) {
        Ok(AgentStep::ToolCalls { calls }) => assert_eq!(calls[0].tool_name, "read"),
        other => panic!("unexpected: {:?}", other.map(|_| ())),
    }
}

#[test]
fn payload_with_text_keeps_the_text() {
    let step = AgentStep::AssistantMessage { text: "<tool_call>{}</tool_call>".to_string() };
    let env = PromptGuidedEnvelope { content: "working".to_string(), tool_calls: vec![call("write")] };
    match config(ToolChoice::Auto).parse_step(step, Some(Ok(env))) {
        Ok(AgentStep::AssistantMessageWithToolCalls { text, calls }) => {
            assert_eq!(text, "working");
            assert_eq!(calls.len(), 1);
        }
        other => panic!("unexpected: {:?}", other.map(|_| ())),
    }
}

#[test]
fn payload_errors_are_reported() {
    let tagged = || AgentStep::FinalText { text: "<tool_call>{}</tool_call>".to_string() };
    let empty = PromptGuidedEnvelope { content: " ".to_string(), tool_calls: vec![] };
    assert_eq!(config(ToolChoice::Auto).parse_step(tagged(), Some(Ok(empty))).unwrap_err(), "prompt_guided_empty_response");
    assert_eq!(
        config(ToolChoice::Auto).parse_step(tagged(), Some(Err("bad".to_string()))).unwrap_err(),
        "prompt_guided_invalid_response_json: bad"
    );
    let unknown = PromptGuidedEnvelope { content: String::new(), tool_calls: vec![call("zzz")] };
    assert_eq!(
        config(ToolChoice::Auto).parse_step(tagged(), Some(Ok(unknown))).unwrap_err(),
        "prompt_guided_unknown_tool: zzz"
    );
    let mismatch = PromptGuidedEnvelope { content: String::new(), tool_calls: vec![call("read"), call("write")] };
    assert_eq!(
        config(ToolChoice::Named { name: "read".to_string() }).parse_step(tagged(), Some(Ok(mismatch))).unwrap_err(),
        "prompt_guided_named_tool_mismatch: expected read, got write"
    );
    let text_only = PromptGuidedEnvelope { content: "answer".to_string(), tool_calls: vec![] };
    assert_eq!(
        config(ToolChoice::Required).parse_step(tagged(), Some(Ok(text_only))).unwrap_err(),
        "prompt_guided_tool_call_required"
    );
    let text_only = PromptGuidedEnvelope { content: "answer".to_string(), tool_calls: vec![] };
    assert!(matches!(
        config(ToolChoice::Auto).parse_step(tagged(), Some(Ok(text_only))),
        Ok(AgentStep::FinalText { text }) if text == "answer"
    ));
}

#[test]
fn native_tool_calls_are_checked() {
    let step = AgentStep::ToolCalls { calls: vec![] };
    assert_eq!(
        config(ToolChoice::Required).parse_step(step, None).unwrap_err(),
        "prompt_guided_tool_call_required"
    );
    let step = AgentStep::ToolCalls { calls: vec![call("read")] };
    assert!(config(ToolChoice::Required).parse_step(step, None).is_ok());
}

#[test]
fn system_message_goes_after_leading_system_messages() {
    let cfg = PromptGuidedConfig::new(ToolChoice::Auto, vec![]);
    let messages = vec![Message::text("system", "a"), Message::text("system", "b"), Message::text("user", "u")];
    let out = cfg.prepare_messages(messages, "  ");
    assert_eq!(out.len(), 4);
    assert_eq!(out[0].content, "a");
    assert_eq!(out[1].content, "b");
    assert_eq!(out[2].role, "system");
    assert_eq!(out[3].content, "u");
    let expected = [
        "Tool calling fallback contract:",
        "If you want to call tools, reply with nothing except:\n<tool_call>\n{\"content\":\"optional assistant text\",\"tool_calls\":[{\"name\":\"tool_name\",\"arguments\":{},\"id\":\"optional-call-id\"}]}\n</tool_call>\nDo not wrap this payload in markdown fences.",
        "You may either answer normally with plain text or emit the tagged JSON payload when a tool is needed.",
        "Available tools:",
    ]
    .join("\n\n");
    assert_eq!(out[2].content, expected);
}

#[test]
fn system_message_lists_tools_and_rules() {
    let cfg = PromptGuidedConfig::new(ToolChoice::Named { name: "read".to_string() }, vec![spec("read")]);
    let text = cfg.render_system_message(" Be brief. ");
    let expected = [
        "Tool calling fallback contract:",
        "Be brief.",
        "If you want to call tools, reply with nothing except:\n<tool_call>\n{\"content\":\"optional assistant text\",\"tool_calls\":[{\"name\":\"tool_name\",\"arguments\":{},\"id\":\"optional-call-id\"}]}\n</tool_call>\nDo not wrap this payload in markdown fences.",
        "You must emit the tagged JSON payload with at least one tool call, and every tool call name must be `read`.",
        "Available tools:\n- read: read tool\n  input_schema: {\"type\":\"object\"}",
    ]
    .join("\n\n");
    assert_eq!(text, expected);
}
