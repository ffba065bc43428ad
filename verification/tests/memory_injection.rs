use deepagents::memory::query_plan::{planned_queries, tokenize};
use deepagents::memory::retrieval::MemoryIntent;
use deepagents::runtime::memory_middleware::{
    build_memory_block, combine_sources, has_injection_marker, inject_memory_block, MemoryLoadOptions, MemoryRuntimeMode,
    SourceOutcome,
};
use deepagents::runtime::skills_middleware::upsert_injection_message;
use deepagents::types::Message;

fn sources(names: &[&str]) -> Vec<String> {
    names.iter().map(|s| s.to_string()).collect()
}

#[test]
fn default_load_options() {
    let o = MemoryLoadOptions::default();
    assert!(!o.allow_host_paths);
    assert_eq!(o.max_injected_chars, 30_000);
    assert_eq!(o.max_source_bytes, 10 * 1024 * 1024);
    assert!(o.strict);
    assert_eq!(o.runtime_mode, MemoryRuntimeMode::Compatibility);
    assert_eq!(o.store_path, ".deepagents/memory_store.json");
}

#[test]
fn sources_are_combined_in_order() {
    let srcs = sources(&["a/AGENTS.md", "b/AGENTS.md", "c/AGENTS.md"]);
    let outcomes = vec![
        SourceOutcome::Loaded("alpha".to_string()),
        SourceOutcome::NotFound,
        SourceOutcome::Loaded("gamma".to_string()),
    ];
    let (contents, d) = combine_sources(&srcs, &outcomes, true, 1000).unwrap();
    assert_eq!(d.loaded_sources, 2);
    assert_eq!(d.skipped_not_found, 1);
    assert!(d.errors.is_empty());
    assert!(!d.truncated);
    let combined = "a/AGENTS.md\nalpha\n\nc/AGENTS.md\ngamma";
    assert_eq!(d.combined_chars, combined.chars().count());
    assert_eq!(d.injected_chars, d.combined_chars);
    assert_eq!(contents.get("a/AGENTS.md").map(|s| s.as_str()), Some("alpha"));
    assert!(!contents.contains_key("b/AGENTS.md"));
    let block = build_memory_block(&contents, &srcs, &d);
    assert!(block.starts_with("DEEPAGENTS_MEMORY_INJECTED_V1\n<agent_memory>\na/AGENTS.md\nalpha\n\nc/AGENTS.md\ngamma\n</agent_memory>\n"));
    assert!(block.ends_with(
        "<memory_diagnostics>\nloaded_sources=2; skipped_not_found=1; truncated=false; injected_chars=36; combined_chars=36\n</memory_diagnostics>\n"
    ));
}

#[test]
fn strict_loading_stops_at_a_failure() {
    let srcs = sources(&["x", "y", "z"]);
    let outcomes = vec![
        SourceOutcome::NotFound,
        SourceOutcome::Failed("permission_denied: symlink not allowed: y".to_string()),
        SourceOutcome::Failed("second".to_string()),
    ];
    assert_eq!(
        combine_sources(&srcs, &outcomes, true, 100).unwrap_err(),
        "permission_denied: symlink not allowed: y"
    );
    let (_, d) = combine_sources(&srcs, &outcomes, false, 100).unwrap();
    assert_eq!(d.errors, vec!["permission_denied: symlink not allowed: y".to_string(), "second".to_string()]);
    assert_eq!(d.skipped_not_found, 1);
}

#[test]
fn over_budget_memory_is_cut() {
    let srcs = sources(&["s"]);
    let outcomes = vec![SourceOutcome::Loaded("0123456789".to_string())];
    let (contents, d) = combine_sources(&srcs, &outcomes, true, 6).unwrap();
    assert!(d.truncated);
    assert_eq!(d.combined_chars, 12);
    let cut = contents.get("__combined__").unwrap().clone();
    assert_eq!(cut, "s\n0\n\n...(memory truncated)...\n\n789");
    assert_eq!(d.injected_chars, cut.chars().count());
    assert_eq!(contents.len(), 1);
    let block = build_memory_block(&contents, &srcs, &d);
    assert!(block.contains("<agent_memory>\ns\n0\n\n...(memory truncated)...\n\n789\n</agent_memory>"));
    assert!(block.contains("truncated=true"));
}

#[test]
fn nothing_loaded_is_said() {
    let srcs = sources(&["s"]);
    let (contents, d) = combine_sources(&srcs, &[SourceOutcome::NotFound], true, 100).unwrap();
    let block = build_memory_block(&contents, &srcs, &d);
    assert!(block.contains("<agent_memory>\n(No memory loaded)\n</agent_memory>"));
    assert_eq!(d.skipped_not_found, 1);
    assert_eq!(d.loaded_sources, 0);
    assert_eq!(d.combined_chars, 0);
    assert!(contents.is_empty());
}

#[test]
fn memory_is_injected_once() {
    let messages = vec![Message::text("user", "hi")];
    let once = inject_memory_block(messages, "DEEPAGENTS_MEMORY_INJECTED_V1\nmemory");
    assert_eq!(once.len(), 2);
    assert_eq!(once[0].role, "system");
    assert!(has_injection_marker(&once));
    let twice = inject_memory_block(once, "DEEPAGENTS_MEMORY_INJECTED_V1\nother");
    assert_eq!(twice.len(), 2);
    assert_eq!(twice[0].content, "DEEPAGENTS_MEMORY_INJECTED_V1\nmemory");
    assert!(!has_injection_marker(&[Message::text("user", "DEEPAGENTS_MEMORY_INJECTED_V1")]));
}

#[test]
fn skills_block_replaces_older_ones() {
    let mut messages = vec![
        Message::text("system", "DEEPAGENTS_SKILLS_INJECTED_V1 old"),
        Message::text("user", "hello"),
        Message::text("system", "x DEEPAGENTS_SKILLS_INJECTED_V2"),
        Message::text("assistant", "ok"),
    ];
    upsert_injection_message(&mut messages, "DEEPAGENTS_SKILLS_INJECTED_V2 new");
    let contents: Vec<&str> = messages.iter().map(|m| m.content.as_str()).collect();
    assert_eq!(contents, vec!["DEEPAGENTS_SKILLS_INJECTED_V2 new", "hello", "ok"]);
    assert_eq!(messages[0].role, "system");
}

#[test]
fn tokens_are_lowercased_words_of_two_or_more() {
    let t = tokenize("Hello, I'm a Rust-dev; v2 x9!");
    let got: Vec<&str> = t.as_slice().iter().map(|s| s.as_str()).collect();
    assert_eq!(got, vec!["dev", "hello", "rust", "v2", "x9"]);
    assert!(tokenize("").is_empty());
    assert_eq!(tokenize("ab ab AB").len(), 1);
}

#[test]
fn query_plan_follows_intent() {
    let q = planned_queries("  plan my sprint  ", MemoryIntent::Mixed, true);
    let names: Vec<&str> = q.iter().map(|x| x.name.as_str()).collect();
    assert_eq!(names, vec!["direct", "preferences", "active_goals", "workspace_context"]);
    assert_eq!(q[0].text, "plan my sprint");
    assert_eq!(q[0].weight_permille, 1000);
    assert_eq!(q[1].weight_permille, 750);
    assert_eq!(q[2].weight_permille, 600);
    assert_eq!(q[3].weight_permille, 700);
    assert!(q[3].tokens.contains("conventions"));
    let q = planned_queries("   ", MemoryIntent::Workspace, false);
    assert!(q.is_empty());
    let q = planned_queries("what?", MemoryIntent::General, true);
    assert_eq!(q.len(), 1);
}

#[test]
fn entry_tokens_cover_every_field() {
    let mut e = deepagents::memory::MemoryEntry::new("Deploy-Plan", "ship v2 on Friday");
    e.title = Some("Release notes".to_string());
    e.tags = vec!["ops".to_string(), "q3-goals".to_string()];
    let t = deepagents::memory::query_plan::entry_tokens(&e);
    for w in ["deploy", "plan", "ship", "v2", "on", "friday", "release", "notes", "ops", "q3", "goals"] {
        assert!(t.contains(w), "{w}");
    }
    assert!(!t.contains("a"));
}

use deepagents::runtime::summarization_middleware::{
    compute_cutoff, pruned_messages, should_summarize, state_cutoff, visible_after_cut, SummarizationPolicyKind,
};

fn conv(roles: &[&str]) -> Vec<Message> {
    roles.iter().enumerate().map(|(i, r)| Message::text(r, &format!("m{i}"))).collect()
}

#[test]
fn summarization_decides_when_and_where_to_cut() {
    let ms = conv(&["user", "assistant", "user", "assistant", "user"]);
    let sizes = vec![10, 10, 10, 10, 10];
    assert!(should_summarize(SummarizationPolicyKind::Budget, &sizes, &ms, 49, 100));
    assert!(!should_summarize(SummarizationPolicyKind::Budget, &sizes, &ms, 50, 100));
    assert!(should_summarize(SummarizationPolicyKind::Turns, &sizes, &ms, 0, 4));
    assert!(!should_summarize(SummarizationPolicyKind::Turns, &sizes, &ms, 0, 5));
    assert_eq!(compute_cutoff(SummarizationPolicyKind::Budget, &sizes, &ms, 25, 100, 1), 3);
    assert_eq!(compute_cutoff(SummarizationPolicyKind::Importance, &sizes, &ms, 25, 100, 4), 1);
    assert_eq!(state_cutoff(None, 3, 5), Some(3));
    assert_eq!(state_cutoff(Some(4), 3, 10), Some(6));
    assert_eq!(state_cutoff(Some(4), 0, 10), None);
    assert_eq!(state_cutoff(None, 5, 5), None);
}

#[test]
fn cut_history_is_replaced_by_its_summary() {
    let mut ms = conv(&["user", "assistant", "user", "assistant"]);
    ms[1].name = Some("summarization".to_string());
    let summary = Message::text("user", "SUMMARY_MESSAGE_V1 s");
    let visible = visible_after_cut(&ms, 2, &summary);
    let contents: Vec<&str> = visible.iter().map(|m| m.content.as_str()).collect();
    assert_eq!(contents, vec!["SUMMARY_MESSAGE_V1 s", "m2", "m3"]);
    assert_eq!(visible_after_cut(&ms, 9, &summary).len(), 1);
    let pruned = pruned_messages(&ms, 0, 3);
    let contents: Vec<&str> = pruned.iter().map(|m| m.content.as_str()).collect();
    assert_eq!(contents, vec!["m0", "m2"]);
}
