use deepagents::provider::llm::{
    adapted_step, merge_prefix_messages, uses_prompt_guided, validate_tool_choice_support, LlmProviderAdapter, ToolChoice,
    ToolsPayloadKind,
};
use deepagents::provider::protocol::{AgentStep, AgentToolCall};
use deepagents::types::Message;

#[test]
fn adapter_holds_its_provider() {
    let a = LlmProviderAdapter::new(7u8);
    assert_eq!(a.inner, 7);
}

#[test]
fn tool_choice_support_rules() {
    let named = ToolChoice::Named { name: "ls".to_string() };
    assert_eq!(
        validate_tool_choice_support(false, 1, &ToolChoice::Required, ToolsPayloadKind::NoTools, Ok(())).unwrap_err(),
        "provider_unsupported_tool_calling"
    );
    assert!(validate_tool_choice_support(false, 1, &ToolChoice::Auto, ToolsPayloadKind::NoTools, Ok(())).is_ok());
    assert_eq!(
        validate_tool_choice_support(false, 0, &named, ToolsPayloadKind::PromptGuided, Err("pg".to_string())).unwrap_err(),
        "pg"
    );
    assert_eq!(
        validate_tool_choice_support(true, 0, &named, ToolsPayloadKind::PromptGuided, Ok(())).unwrap_err(),
        "tool_choice_requires_tools"
    );
    assert_eq!(
        validate_tool_choice_support(true, 2, &ToolChoice::Required, ToolsPayloadKind::FunctionTools { tools: 0 }, Ok(()))
            .unwrap_err(),
        "tool_choice_requires_tools"
    );
    assert!(validate_tool_choice_support(true, 2, &ToolChoice::Required, ToolsPayloadKind::FunctionTools { tools: 2 }, Ok(())).is_ok());
    assert!(uses_prompt_guided(ToolsPayloadKind::PromptGuided, 1, &ToolChoice::Auto));
    assert!(!uses_prompt_guided(ToolsPayloadKind::PromptGuided, 1, &ToolChoice::NoTools));
    assert!(!uses_prompt_guided(ToolsPayloadKind::PromptGuided, 0, &ToolChoice::Auto));
}

#[test]
fn adapted_steps() {
    let call = || AgentToolCall { tool_name: "ls".to_string(), arguments: serde_json::Value::Null, call_id: Some("c".to_string()) };
    assert!(matches!(adapted_step("hi".to_string(), vec![]), AgentStep::FinalText { .. }));
    assert!(matches!(adapted_step(String::new(), vec![call()]), AgentStep::ToolCalls { .. }));
    assert!(matches!(adapted_step("x".to_string(), vec![call()]), AgentStep::AssistantMessageWithToolCalls { .. }));
}

#[test]
fn instruction_prefix_is_merged() {
    let ms = vec![Message::text("system", "a"), Message::text("developer", "b"), Message::text("user", "q")];
    let out = merge_prefix_messages(&ms);
    assert_eq!(out.len(), 2);
    assert_eq!(out[0].role, "system");
    assert_eq!(out[0].content, "a\n\nb");
    assert_eq!(out[1].content, "q");

    let one = vec![Message::text("system", "a"), Message::text("user", "q")];
    assert_eq!(merge_prefix_messages(&one).len(), 2);
    let mut named = Message::text("developer", "b");
    named.name = Some("n".to_string());
    let blocked = vec![Message::text("system", "a"), named, Message::text("user", "q")];
    let out = merge_prefix_messages(&blocked);
    assert_eq!(out.len(), 3);
    assert_eq!(out[1].name.as_deref(), Some("n"));
}
