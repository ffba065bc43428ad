use deepagents::provider::mock::{mock_provider_bundle, MockProvider, MockScript, MockStep};
use deepagents::provider::protocol::{AgentStep, AgentToolCall};

fn j(text: &str) -> serde_json::Value {
    serde_json::from_str(text).unwrap()
}

fn call(name: &str, id: Option<&str>) -> AgentToolCall {
    AgentToolCall { tool_name: name.to_string(), arguments: j(r#"{"a":1}"#), call_id: id.map(|s| s.to_string()) }
}

fn text_of(step: &AgentStep) -> &str {
    match step {
        AgentStep::FinalText { text } | AgentStep::AssistantMessage { text } => text,
        other => panic!("expected a text step, got {:?}", other),
    }
}

#[test]
fn the_script_is_played_in_order_then_ends_with_empty_text() {
    let script = MockScript {
        steps: vec![
            MockStep::AssistantMessage { text: "thinking".to_string() },
            MockStep::ToolCalls { calls: vec![call("ls", Some("c1"))] },
            MockStep::Error { code: "rate_limited".to_string(), message: "slow down".to_string() },
            MockStep::FinalText { text: "done".to_string() },
        ],
    };
    let mut p = MockProvider::from_script(script);
    let (s, d) = p.step(None);
    assert_eq!(text_of(&s), "thinking");
    assert_eq!(d, 0);
    match p.step(None).0 {
        AgentStep::ToolCalls { calls } => {
            assert_eq!(calls.len(), 1);
            assert_eq!(calls[0].call_id.as_deref(), Some("c1"));
            assert_eq!(calls[0].arguments, j(r#"{"a":1}"#));
        },
        other => panic!("expected tool calls, got {:?}", other),
    }
    match p.step(None).0 {
        AgentStep::Error { error } => {
            assert_eq!(error.code, "rate_limited");
            assert_eq!(error.message, "slow down");
        },
        other => panic!("expected an error, got {:?}", other),
    }
    assert_eq!(text_of(&p.step(None).0), "done");
    assert_eq!(text_of(&p.step(None).0), "");
    assert_eq!(text_of(&p.step(None).0), "");
}

#[test]
fn call_ids_can_be_left_out() {
    let script = MockScript { steps: vec![MockStep::ToolCalls { calls: vec![call("ls", Some("c1")), call("grep", None)] }] };
    let mut p = MockProvider::from_script_without_call_ids(script);
    match p.step(None).0 {
        AgentStep::ToolCalls { calls } => {
            assert_eq!(calls.len(), 2);
            assert!(calls.iter().all(|c| c.call_id.is_none()));
            assert_eq!(calls[1].tool_name, "grep");
        },
        other => panic!("expected tool calls, got {:?}", other),
    }
}

#[test]
fn a_delay_step_answers_empty_text_after_waiting() {
    let mut p = MockProvider::from_script(MockScript { steps: vec![MockStep::DelayMs { ms: 25 }] });
    let (s, d) = p.step(None);
    assert_eq!(text_of(&s), "");
    assert_eq!(d, 25);
}

#[test]
fn the_final_text_can_come_from_the_last_tool_line() {
    let steps = || {
        vec![
            MockStep::FinalFromLastToolFirstLine { prefix: Some("got: ".to_string()) },
            MockStep::FinalFromLastToolFirstLine { prefix: None },
        ]
    };
    let mut p = MockProvider::from_script(MockScript { steps: steps() });
    let out = j("{\"content\":\"     1\u{2192}first line\\nsecond\"}");
    assert_eq!(text_of(&p.step(Some(&out)).0), "got: first line");
    let plain = j(r#"{"content":"plain\nnext"}"#);
    assert_eq!(text_of(&p.step(Some(&plain)).0), "plain");

    let mut p = MockProvider::from_script(MockScript { steps: steps() });
    assert_eq!(text_of(&p.step(None).0), "got: ");
    assert_eq!(text_of(&p.step(Some(&j(r#"{"x":1}"#))).0), "");
}

#[test]
fn an_assistant_message_with_calls_keeps_both() {
    let script = MockScript {
        steps: vec![MockStep::AssistantMessageWithToolCalls { text: "let me look".to_string(), calls: vec![call("ls", Some("a"))] }],
    };
    let mut p = MockProvider::from_script(script);
    match p.step(None).0 {
        AgentStep::AssistantMessageWithToolCalls { text, calls } => {
            assert_eq!(text, "let me look");
            assert_eq!(calls[0].tool_name, "ls");
        },
        other => panic!("expected a message with calls, got {:?}", other),
    }
}

#[test]
fn a_mock_bundle_reports_tool_choice_and_structured_output_only() {
    let b = mock_provider_bundle("mock", MockScript { steps: vec![MockStep::FinalText { text: "x".to_string() }] }, true);
    assert_eq!(b.diagnostics.provider_id, "mock");
    assert!(b.diagnostics.surface_capabilities.supports_tool_choice);
    assert!(b.diagnostics.surface_capabilities.supports_structured_output);
    assert!(!b.diagnostics.surface_capabilities.supports_provider_streaming);
    assert!(!b.diagnostics.surface_capabilities.reports_usage);
    assert!(b.diagnostics.llm_capabilities.is_none());
    let mut p = b.provider;
    assert_eq!(text_of(&p.step(None).0), "x");
}
