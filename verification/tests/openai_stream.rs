use deepagents::provider::openai_compatible::stream::{
    parse_chat_response, stream_finish, stream_step, ChatChoice, ChatChunk, ChatToolCall, ChunkChoice, ChunkUsage, ContentPart, DeltaContent, StreamAssembly,
    ToolCallDelta,
};
use deepagents::provider::openai_compatible::transport::MockOpenAiTransport;
use deepagents::provider::protocol::{AgentProviderEvent, AgentStep};

fn choice(content: Option<DeltaContent>, calls: Option<Vec<ToolCallDelta>>, finish: bool) -> ChunkChoice {
    ChunkChoice {
        content,
        reasoning_content: None,
        tool_calls: calls,
        finish_reason: if finish { Some("stop".to_string()) } else { None },
    }
}

fn text(t: &str) -> Option<DeltaContent> {
    Some(DeltaContent::Text(t.to_string()))
}

fn delta(index: usize, id: Option<&str>, name: Option<&str>, args: Option<&str>) -> ToolCallDelta {
    ToolCallDelta {
        index,
        id: id.map(|s| s.to_string()),
        name: name.map(|s| s.to_string()),
        arguments: args.map(|s| s.to_string()),
    }
}

fn chunk(choices: Vec<ChunkChoice>) -> ChatChunk {
    ChatChunk { usage: None, choices }
}

fn args_delta(id: &str, d: &str) -> AgentProviderEvent {
    AgentProviderEvent::ToolCallArgsDelta { tool_call_id: id.to_string(), delta: d.to_string() }
}

#[test]
fn stream_text_deltas_make_final_text() {
    let mut s = StreamAssembly::new();
    let e1 = stream_step(&mut s, &chunk(vec![choice(text("Hel"), None, false)]));
    assert_eq!(e1, vec![AgentProviderEvent::AssistantTextDelta { text: "Hel".to_string() }]);
    let e2 = stream_step(&mut s, &chunk(vec![choice(text(""), None, false)]));
    assert!(e2.is_empty());
    let last = ChatChunk {
        usage: Some(ChunkUsage { prompt_tokens: Some(3), completion_tokens: Some(2), total_tokens: Some(5) }),
        choices: vec![ChunkChoice {
            content: text("lo"),
            reasoning_content: Some("because".to_string()),
            tool_calls: None,
            finish_reason: Some("stop".to_string()),
        }],
    };
    let e3 = stream_step(&mut s, &last);
    assert_eq!(
        e3,
        vec![
            AgentProviderEvent::Usage { input_tokens: Some(3), output_tokens: Some(2), total_tokens: Some(5) },
            AgentProviderEvent::AssistantTextDelta { text: "lo".to_string() },
        ]
    );
    let out = stream_finish(s).unwrap();
    match out.step {
        AgentStep::FinalText { text } => assert_eq!(text, "Hello"),
        other => panic!("unexpected step {:?}", other),
    }
    assert!(out.content_blocks.is_none());
    assert_eq!(out.reasoning_content.as_deref(), Some("because"));
}

#[test]
fn stream_tool_call_arguments_flush_when_id_arrives() {
    let mut s = StreamAssembly::new();
    let e1 = stream_step(&mut s, &chunk(vec![choice(None, Some(vec![delta(0, None, Some("search"), Some("{\"q\":"))]), false)]));
    assert!(e1.is_empty());
    let e2 = stream_step(&mut s, &chunk(vec![choice(None, Some(vec![delta(0, Some("call_1"), None, Some("\"x\"}"))]), false)]));
    assert_eq!(e2, vec![args_delta("call_1", "{\"q\":"), args_delta("call_1", "\"x\"}")]);
    let e3 = stream_step(
        &mut s,
        &chunk(vec![choice(None, Some(vec![delta(1, Some("call_2"), Some("noop"), Some("  "))]), true)]),
    );
    assert_eq!(e3, vec![args_delta("call_2", "  ")]);
    let out = stream_finish(s).unwrap();
    match out.step {
        AgentStep::ToolCalls { calls } => {
            assert_eq!(calls.len(), 2);
            assert_eq!(calls[0].tool_name, "search");
            assert_eq!(calls[0].call_id.as_deref(), Some("call_1"));
            assert_eq!(calls[0].arguments, serde_json::from_str::<serde_json::Value>("{\"q\":\"x\"}").unwrap());
            assert_eq!(calls[1].tool_name, "noop");
            assert_eq!(calls[1].arguments, serde_json::Value::Object(serde_json::Map::new()));
        },
        other => panic!("unexpected step {:?}", other),
    }
}

#[test]
fn stream_calls_come_in_order_of_position_with_text() {
    let mut s = StreamAssembly::new();
    stream_step(
        &mut s,
        &chunk(vec![choice(
            text("checking"),
            Some(vec![delta(2, Some("b"), Some("second"), Some("{}")), delta(0, Some("a"), Some("first"), Some("[1]"))]),
            true,
        )]),
    );
    let out = stream_finish(s).unwrap();
    match out.step {
        AgentStep::AssistantMessageWithToolCalls { text, calls } => {
            assert_eq!(text, "checking");
            assert_eq!(calls.len(), 2);
            assert_eq!(calls[0].tool_name, "first");
            assert_eq!(calls[1].tool_name, "second");
            assert_eq!(calls[0].arguments, serde_json::from_str::<serde_json::Value>("[1]").unwrap());
        },
        other => panic!("unexpected step {:?}", other),
    }
}

#[test]
fn stream_without_finish_reason_is_an_error() {
    let mut s = StreamAssembly::new();
    stream_step(&mut s, &chunk(vec![choice(text("partial"), None, false)]));
    assert_eq!(stream_finish(s).unwrap_err(), "openai_stream_missing_finish");
}

#[test]
fn stream_call_without_id_or_name_or_json_is_an_error() {
    let mut s = StreamAssembly::new();
    stream_step(&mut s, &chunk(vec![choice(None, Some(vec![delta(0, None, Some("f"), Some("{}"))]), true)]));
    assert_eq!(stream_finish(s).unwrap_err(), "openai_stream_tool_call_missing_id");

    let mut s = StreamAssembly::new();
    stream_step(&mut s, &chunk(vec![choice(None, Some(vec![delta(0, Some("c"), None, Some("{}"))]), true)]));
    assert_eq!(stream_finish(s).unwrap_err(), "openai_stream_tool_call_missing_name");

    let mut s = StreamAssembly::new();
    stream_step(&mut s, &chunk(vec![choice(None, Some(vec![delta(0, Some("c"), Some("f"), Some("{oops"))]), true)]));
    let err = stream_finish(s).unwrap_err();
    assert_eq!(err, serde_json::from_str::<serde_json::Value>("{oops").unwrap_err().to_string());
}

#[test]
fn stream_image_parts_give_blocks_and_placeholder_text() {
    let mut s = StreamAssembly::new();
    let parts = vec![
        ContentPart { kind: "image_url".to_string(), text: None, refusal: None, image_url: Some("data:image/png;base64,AAAA".to_string()) },
        ContentPart { kind: "text".to_string(), text: Some(String::new()), refusal: None, image_url: None },
    ];
    let events = stream_step(&mut s, &chunk(vec![choice(Some(DeltaContent::Parts(parts)), None, true)]));
    assert!(events.is_empty());
    let out = stream_finish(s).unwrap();
    match out.step {
        AgentStep::FinalText { text } => assert_eq!(text, "(image content: image/png)"),
        other => panic!("unexpected step {:?}", other),
    }
    let blocks = out.content_blocks.unwrap();
    assert_eq!(blocks.len(), 1);
    assert_eq!(blocks[0].block_type, "image_base64");
    assert_eq!(blocks[0].base64.as_deref(), Some("AAAA"));

    let mut s = StreamAssembly::new();
    let parts = vec![
        ContentPart { kind: "image_url".to_string(), text: None, refusal: None, image_url: None },
        ContentPart { kind: "refusal".to_string(), text: None, refusal: Some(String::new()), image_url: None },
    ];
    stream_step(&mut s, &chunk(vec![choice(Some(DeltaContent::Parts(parts)), None, true)]));
    let out = stream_finish(s).unwrap();
    match out.step {
        AgentStep::FinalText { text } => assert_eq!(text, "(assistant returned multimodal content)"),
        other => panic!("unexpected step {:?}", other),
    }
    assert!(out.content_blocks.is_none());
}

fn tc(id: &str, name: &str, args: &str) -> ChatToolCall {
    ChatToolCall { id: id.to_string(), name: name.to_string(), arguments: args.to_string() }
}

#[test]
fn chat_response_without_choice_is_an_error() {
    assert_eq!(parse_chat_response(&[]).unwrap_err(), "openai_response_missing_choice");
}

#[test]
fn chat_response_text_and_calls() {
    let c = ChatChoice { content: text("hello"), reasoning_content: Some(String::new()), tool_calls: None };
    let out = parse_chat_response(&[c]).unwrap();
    match out.step {
        AgentStep::FinalText { text } => assert_eq!(text, "hello"),
        other => panic!("unexpected step {:?}", other),
    }
    assert_eq!(out.reasoning_content.as_deref(), Some(""));

    let c = ChatChoice { content: None, reasoning_content: None, tool_calls: Some(vec![tc("a", "f", " "), tc("b", "g", "{\"x\":1}")]) };
    let out = parse_chat_response(&[c]).unwrap();
    match out.step {
        AgentStep::ToolCalls { calls } => {
            assert_eq!(calls.len(), 2);
            assert_eq!(calls[0].arguments, serde_json::Value::Object(serde_json::Map::new()));
            assert_eq!(calls[1].call_id.as_deref(), Some("b"));
            assert_eq!(calls[1].arguments, serde_json::from_str::<serde_json::Value>("{\"x\":1}").unwrap());
        },
        other => panic!("unexpected step {:?}", other),
    }

    let c = ChatChoice { content: text("thinking"), reasoning_content: None, tool_calls: Some(vec![]) };
    match parse_chat_response(&[c]).unwrap().step {
        AgentStep::AssistantMessageWithToolCalls { text, calls } => {
            assert_eq!(text, "thinking");
            assert!(calls.is_empty());
        },
        other => panic!("unexpected step {:?}", other),
    }

    let c = ChatChoice { content: None, reasoning_content: None, tool_calls: Some(vec![tc("a", "f", "{bad")]) };
    let err = parse_chat_response(&[c]).unwrap_err();
    assert_eq!(err, serde_json::from_str::<serde_json::Value>("{bad").unwrap_err().to_string());
}

#[test]
fn the_mock_transport_answers_what_it_was_made_with() {
    let t = MockOpenAiTransport::for_response(vec![ChatChoice { content: None, reasoning_content: None, tool_calls: None }]);
    let choices = t.into_chat_completion().unwrap();
    assert_eq!(choices.len(), 1);
    let t = MockOpenAiTransport::for_chunks(vec![ChatChunk { usage: None, choices: Vec::new() }, ChatChunk { usage: None, choices: Vec::new() }]);
    assert_eq!(t.into_chat_completion().unwrap_err(), "mock_openai_missing_response");
    let t = MockOpenAiTransport::for_chunks(vec![ChatChunk { usage: None, choices: Vec::new() }]);
    assert_eq!(t.into_chunk_stream().len(), 1);
    let t = MockOpenAiTransport::for_response(Vec::new());
    assert!(t.into_chunk_stream().is_empty());
}
