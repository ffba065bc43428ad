use deepagents::provider::prompt_cache::{build_prompt_cache_plan_from_payload, ProviderPromptCacheStrategy};
use deepagents::state::AgentState;

fn j(text: &str) -> serde_json::Value {
    serde_json::from_str(text).unwrap()
}

#[test]
fn payload_plan_splits_prefix_and_suffix() {
    let payload = j(r#"{
        "tool_choice": "auto",
        "messages": [
            {"role": "system", "content": "s"},
            {"role": "developer", "content": "d"},
            {"role": "user", "content": "u"},
            {"role": "system", "content": "late"}
        ],
        "tools_payload": [{"name": "ls"}]
    }"#);
    let mut state = AgentState::new();
    state.extra.insert("_summarization_event".to_string(), j("{\"n\":1}"));
    let plan = build_prompt_cache_plan_from_payload(&payload, &state);
    assert_eq!(plan.l0_view, j(r#"{"tool_choice":"auto","response_format":null,"structured_output":null}"#));
    assert_eq!(
        plan.l1_view,
        j(r#"{"prefix_messages":[{"role":"system","content":"s"},{"role":"developer","content":"d"}],"tools":[{"name":"ls"}]}"#)
    );
    assert_eq!(
        plan.l2_view,
        j(r#"{"messages":[{"role":"user","content":"u"},{"role":"system","content":"late"}],"summarization_event":{"n":1}}"#)
    );
    assert_eq!(plan.provider_strategy, ProviderPromptCacheStrategy::StablePrefix);
    assert_eq!(plan.l1_hash.len(), 64);

    let plan = build_prompt_cache_plan_from_payload(&j("{}"), &AgentState::new());
    assert_eq!(plan.l1_view, j(r#"{"prefix_messages":[],"tools":null}"#));
    assert_eq!(plan.l2_view, j(r#"{"messages":[],"summarization_event":null}"#));
}
