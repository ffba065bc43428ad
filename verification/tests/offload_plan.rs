use deepagents::runtime::filesystem_runtime_middleware::{
    finish_offload, offloaded_output, plan_offload, tool_result_content, LargeToolResultOffloadOptions, OffloadPlan,
};
use deepagents::state::AgentState;

fn j(text: &str) -> serde_json::Value {
    serde_json::from_str(text).unwrap()
}

fn opts(threshold: usize) -> LargeToolResultOffloadOptions {
    LargeToolResultOffloadOptions {
        enabled: true,
        threshold_chars: threshold,
        prefix: "/large_tool_results/".to_string(),
        excluded_tools: vec!["read_file".to_string()],
        preview_max_lines: 2,
    }
}

#[test]
fn tool_result_content_prefers_trimmed_content() {
    assert_eq!(tool_result_content(&j(r#"{"content":"  hi  ","x":1}"#)), "hi");
    assert_eq!(tool_result_content(&j(r#"{"content":"   "}"#)), r#"{"content":"   "}"#);
    assert_eq!(tool_result_content(&j(r#"{"n":1}"#)), r#"{"n":1}"#);
    assert_eq!(tool_result_content(&j("7")), "7");
}

#[test]
fn plan_offload_follows_options() {
    let out = j(r#"{"content":"abcdef"}"#);
    let p = plan_offload(&opts(6), "grep", "call:1", &out).unwrap();
    assert_eq!(p.full_text, "abcdef");
    assert_eq!(p.total_chars, 6);
    assert!(p.path.starts_with("/large_tool_results/"));
    assert!(plan_offload(&opts(7), "grep", "call:1", &out).is_none());
    assert!(plan_offload(&opts(1), "read_file", "call:1", &out).is_none());
    let mut off = opts(1);
    off.enabled = false;
    assert!(plan_offload(&off, "grep", "call:1", &out).is_none());
    let p = plan_offload(&opts(3), "grep", "c", &j("[1,2]")).unwrap();
    assert_eq!(p.full_text, "[1,2]");
    assert_eq!(p.total_chars, 5);
}

fn plan(path: &str, full_text: &str) -> OffloadPlan {
    OffloadPlan { path: path.to_string(), full_text: full_text.to_string(), total_chars: full_text.chars().count() }
}

#[test]
fn an_offloaded_object_keeps_its_other_members() {
    let out = offloaded_output(j(r#"{"content":"l1\nl2\nl3","exit":0}"#), &plan("/big/c1", "l1\nl2\nl3"), "l1", "l3");
    assert_eq!(
        out,
        j(r#"{"content":"(offloaded to /big/c1; use read_file)","exit":0,"offloaded":true,"offload_path":"/big/c1",
              "offload_total_chars":8,"offload_head":"l1","offload_tail":"l3"}"#)
    );
}

#[test]
fn an_offloaded_value_that_is_not_an_object_is_wrapped() {
    let out = offloaded_output(j(r#"[1,2,3]"#), &plan("/big/c2", "[1,2,3]"), "[1,2,3]", "");
    assert_eq!(
        out,
        j(r#"{"offloaded":true,"offload_path":"/big/c2","offload_total_chars":7,"offload_head":"[1,2,3]",
              "offload_tail":"","output_type":"array","content":"(offloaded; use read_file)"}"#)
    );
    let out = offloaded_output(j(r#""text""#), &plan("/big/c3", "text"), "text", "");
    assert_eq!(out["output_type"], j(r#""string""#));
    let out = offloaded_output(j("null"), &plan("/big/c4", "null"), "null", "");
    assert_eq!(out["output_type"], j(r#""null""#));
}

#[test]
fn finishing_an_offload_records_the_event_and_leaves_a_preview() {
    let mut state = AgentState::new();
    let text = "a\nb\nc\nd\ne";
    let output = j(r#"{"content":"a\nb\nc\nd\ne"}"#);
    let p = plan_offload(&opts(5), "grep", "call 9", &output).unwrap();
    let (out, note) = finish_offload(&mut state, "grep", "call 9", output, &p, 2);
    assert_eq!(p.full_text, text);
    assert_eq!(out["offload_path"], j(r#""/large_tool_results/call_9""#));
    assert_eq!(out["offload_head"], j(r#""a\nb""#));
    assert_eq!(out["offload_tail"], j(r#""d\ne""#));
    assert_eq!(
        note,
        "TOOL_OUTPUT_OFFLOADED: Full output written to /large_tool_results/call_9. Use read_file with offset/limit to paginate.\n<preview_head>\na\nb\n</preview_head>\n<preview_tail>\nd\ne\n</preview_tail>"
    );
    let event = state.extra.get("_large_tool_result_offload_event").unwrap();
    assert_eq!(
        *event,
        j(r#"{"tool_name":"grep","call_id":"call 9","path":"/large_tool_results/call_9","total_chars":9}"#)
    );
}
