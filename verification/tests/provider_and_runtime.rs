use deepagents::provider::openai_compatible::provider::{build_data_url, parse_data_url_content_block};
use deepagents::provider::openai_compatible::transport::{extract_sse_data, find_sse_frame_delimiter, replace_crlf, utf8_text, SseDecoder, SseItem};
use deepagents::runtime::events::{preview_text, summarize_messages};
use deepagents::runtime::filesystem_runtime_middleware::{
    offload_path, offloaded_message, preview_head_tail_lines, should_offload, FilesystemRuntimeMiddleware, FilesystemRuntimeOptions,
};
use deepagents::types::{Message, ToolCall};

fn j(text: &str) -> serde_json::Value {
    serde_json::from_str(text).unwrap()
}

fn data_items(items: &[SseItem]) -> Vec<String> {
    items
        .iter()
        .map(|i| match i {
            SseItem::Data(s) => s.clone(),
            SseItem::Done => "[done]".to_string(),
            SseItem::InvalidUtf8 => "[bad]".to_string(),
        })
        .collect()
}

#[test]
fn sse_frames_split_inside_a_character_decode_once_whole() {
    let json = j(r#"{"choices": [{"delta": {"content": "你"}, "finish_reason": null}]}"#);
    let frame = format!("data: {}\n\n", json);
    let bytes = frame.into_bytes();
    let needle = "你".as_bytes();
    let pos = bytes.windows(needle.len()).position(|w| w == needle).expect("needle present");
    let split = pos + 1;
    let mut dec = SseDecoder::new();
    let first = dec.push(&bytes[..split]);
    assert!(first.is_empty());
    let second = dec.push(&bytes[split..]);
    assert_eq!(data_items(&second), vec![json.to_string()]);
    let done = dec.push(b"data: [DONE]\n\n");
    assert!(matches!(done.as_slice(), [SseItem::Done]));
    assert!(dec.finished());
    assert!(dec.push(b"data: x\n\n").is_empty());
    let parsed: serde_json::Value = serde_json::from_str(&data_items(&second)[0]).unwrap();
    assert_eq!(parsed["choices"][0]["delta"]["content"], "你");
}

#[test]
fn sse_frames_with_crlf_and_several_data_lines() {
    let mut dec = SseDecoder::new();
    let out = dec.push(b": comment\r\nevent: x\r\ndata: a\r\ndata:  b\r\n\r\ndata: c\n\n");
    assert_eq!(data_items(&out), vec!["a\nb".to_string(), "c".to_string()]);
    let out = dec.push(b"data: tail");
    assert!(out.is_empty());
    assert!(matches!(dec.finish(), Some(SseItem::Data(s)) if s == "tail"));
}

#[test]
fn sse_invalid_utf8_ends_the_stream() {
    let mut dec = SseDecoder::new();
    let out = dec.push(b"data: \xff\n\ndata: later\n\n");
    assert!(matches!(out.as_slice(), [SseItem::InvalidUtf8]));
    assert!(dec.finished());
    assert!(SseDecoder::new().finish().is_none());
}

#[test]
fn sse_helpers() {
    assert_eq!(find_sse_frame_delimiter(b"ab\n\ncd"), Some((2, 2)));
    assert_eq!(find_sse_frame_delimiter(b"ab\r\n\r\ncd\n\n"), Some((2, 4)));
    assert_eq!(find_sse_frame_delimiter(b"abc"), None);
    assert_eq!(extract_sse_data("data: x\nid: 1\ndata:y").as_deref(), Some("x\ny"));
    assert_eq!(extract_sse_data("event: ping"), None);
    assert_eq!(replace_crlf("a\r\nb\rc"), "a\nb\rc");
    assert_eq!(utf8_text(vec![0xe4, 0xbd, 0xa0]).as_deref(), Some("你"));
    assert_eq!(utf8_text(vec![0xe4, 0xbd]), None);
}

#[test]
fn data_urls_round_trip() {
    let url = build_data_url("image/png", "QUJD");
    assert_eq!(url, "data:image/png;base64,QUJD");
    let block = parse_data_url_content_block(&url).unwrap();
    assert_eq!(block.block_type, "image_base64");
    assert_eq!(block.mime_type.as_deref(), Some("image/png"));
    assert_eq!(block.base64.as_deref(), Some("QUJD"));
    assert!(parse_data_url_content_block("data:image/png,QUJD").is_none());
    assert!(parse_data_url_content_block("https://x/y.png").is_none());
    assert!(parse_data_url_content_block("data:;base64,").is_some());
}

#[test]
fn previews_cut_long_texts() {
    assert_eq!(preview_text("abcdef", 3), "abc...");
    assert_eq!(preview_text("abc", 3), "abc");
    let mut m = Message::text("assistant", &"x".repeat(130));
    m.tool_calls = Some(vec![ToolCall { id: "t1".to_string(), name: "ls".to_string(), arguments: j(r#"{}"#) }]);
    let s = summarize_messages(&[m]);
    assert_eq!(s[0].role, "assistant");
    assert_eq!(s[0].content_preview, format!("{}...", "x".repeat(120)));
    assert_eq!(s[0].tool_call_ids, vec!["t1".to_string()]);
}

#[test]
fn large_results_are_offloaded_with_a_preview() {
    let mw = FilesystemRuntimeMiddleware::new(FilesystemRuntimeOptions::default());
    let opts = mw.offload_options();
    assert!(should_offload(&opts, "execute", 20_000));
    assert!(!should_offload(&opts, "execute", 19_999));
    assert!(!should_offload(&opts, "read_file", 50_000));
    assert_eq!(offload_path("/large_tool_results//", "call 1"), "/large_tool_results/call_1");
    let (head, tail) = preview_head_tail_lines("1\n2\n3\n4\n5", 2);
    assert_eq!(head, "1\n2");
    assert_eq!(tail, "4\n5");
    let (head, tail) = preview_head_tail_lines("only", 0);
    assert_eq!((head.as_str(), tail.as_str()), ("only", "only"));
    assert_eq!(
        offloaded_message("/p", "h", "t"),
        "TOOL_OUTPUT_OFFLOADED: Full output written to /p. Use read_file with offset/limit to paginate.\n<preview_head>\nh\n</preview_head>\n<preview_tail>\nt\n</preview_tail>"
    );
}

#[test]
fn scan_counts_large_tool_results() {
    let mut opts = FilesystemRuntimeOptions::default();
    opts.tool_output_char_threshold = 5;
    let mw = FilesystemRuntimeMiddleware::new(opts);
    let messages = vec![
        Message::text("tool", "123456"),
        Message::text("tool", "12"),
        Message::text("user", "1234567890"),
        Message::text("tool", "1234567"),
    ];
    let ev = mw.scan(&messages);
    assert_eq!(ev.candidates, 2);
    assert_eq!(ev.max_candidate_chars, 7);
    assert_eq!(ev.total_candidate_chars, 13);
    assert!(!ev.offload_performed);
}
