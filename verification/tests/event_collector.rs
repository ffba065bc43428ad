use deepagents::provider::protocol::{AgentProviderEvent, VecAgentProviderEventCollector};

#[test]
fn collector_returns_emitted_events_in_order() {
    let events = vec![
        AgentProviderEvent::AssistantTextDelta { text: "a".to_string() },
        AgentProviderEvent::ToolCallArgsDelta { tool_call_id: "c".to_string(), delta: "{".to_string() },
        AgentProviderEvent::Usage { input_tokens: Some(1), output_tokens: None, total_tokens: Some(1) },
        AgentProviderEvent::AssistantTextDelta { text: "b".to_string() },
    ];
    let mut c = VecAgentProviderEventCollector::new();
    for e in events.iter() {
        c.emit(e.clone());
    }
    assert_eq!(c.into_events(), events);
    assert!(VecAgentProviderEventCollector::new().into_events().is_empty());
}
