use deepagents::middleware::filesystem::{file_change, file_delta, parse_read_lines, FileAction, FilesystemMiddleware};
use deepagents::middleware::protocol::ToolExecution;
use deepagents::runtime::cache_store::MemoryCacheStore;
use deepagents::runtime::todolist_middleware::{apply_write_todos, bump, WriteTodoPatch, WriteTodosInput};
use deepagents::state::{AgentState, DefaultFilesystemReducer, FileDelta, FileRecord, FilesystemDelta, StateReducer, TodoItem};
use deepagents::subagents::protocol::{filter_state_for_child, is_excluded_state_key, merge_child_state};

fn j(text: &str) -> serde_json::Value {
    serde_json::from_str(text).unwrap()
}

fn patch(id: &str, content: Option<&str>, status: Option<&str>, priority: Option<&str>) -> WriteTodoPatch {
    WriteTodoPatch {
        id: id.to_string(),
        content: content.map(|s| s.to_string()),
        status: status.map(|s| s.to_string()),
        priority: priority.map(|s| s.to_string()),
        active_form: None,
    }
}

fn todo(id: &str, status: &str) -> TodoItem {
    TodoItem {
        id: id.to_string(),
        content: format!("task {id}"),
        status: status.to_string(),
        priority: "medium".to_string(),
        active_form: None,
    }
}

#[test]
fn replace_needs_complete_todos() {
    let mut state = AgentState::new();
    let input = WriteTodosInput { todos: vec![patch("1", Some("write"), None, Some("high"))], merge: false, summary: None };
    assert_eq!(
        apply_write_todos(&mut state, &input).unwrap_err(),
        "invalid_request: todo status is required for merge=false"
    );
    assert!(state.todos.is_empty());
    let input = WriteTodosInput {
        todos: vec![patch(" 1 ", Some(" write "), Some("pending"), Some("high"))],
        merge: false,
        summary: None,
    };
    apply_write_todos(&mut state, &input).unwrap();
    assert_eq!(state.todos.len(), 1);
    assert_eq!(state.todos[0].id, "1");
    assert_eq!(state.todos[0].content, "write");
}

#[test]
fn ids_must_be_present_and_distinct() {
    let mut state = AgentState::new();
    let input = WriteTodosInput { todos: vec![patch("  ", None, None, None)], merge: true, summary: None };
    assert_eq!(apply_write_todos(&mut state, &input).unwrap_err(), "invalid_request: todo id is required");
    let input = WriteTodosInput { todos: vec![patch("a", None, None, None), patch(" a", None, None, None)], merge: true, summary: None };
    assert_eq!(apply_write_todos(&mut state, &input).unwrap_err(), "invalid_request: duplicate todo id: a");
}

#[test]
fn merge_updates_by_id_and_appends_new_ones() {
    let mut state = AgentState::new();
    state.todos = vec![todo("1", "pending"), todo("2", "pending")];
    let input = WriteTodosInput {
        todos: vec![patch("2", None, Some("in_progress"), None), patch("3", Some("new"), None, None)],
        merge: true,
        summary: None,
    };
    apply_write_todos(&mut state, &input).unwrap();
    assert_eq!(state.todos.len(), 3);
    assert_eq!(state.todos[1].status, "in_progress");
    assert_eq!(state.todos[1].content, "task 2");
    assert_eq!(state.todos[2].id, "3");
    assert_eq!(state.todos[2].content, "new");
    assert_eq!(state.todos[2].status, "");
}

#[test]
fn summary_needs_a_completion_and_errors_leave_state_alone() {
    let mut state = AgentState::new();
    state.todos = vec![todo("1", "pending")];
    let input = WriteTodosInput {
        todos: vec![patch("1", None, Some("in_progress"), None)],
        merge: true,
        summary: Some("done".to_string()),
    };
    assert_eq!(
        apply_write_todos(&mut state, &input).unwrap_err(),
        "invalid_request: summary is only allowed when a todo transitions to completed"
    );
    assert_eq!(state.todos[0].status, "pending");
    let input = WriteTodosInput {
        todos: vec![patch("1", None, Some("completed"), None)],
        merge: true,
        summary: Some("  all done ".to_string()),
    };
    apply_write_todos(&mut state, &input).unwrap();
    assert_eq!(state.todos[0].status, "completed");
    assert_eq!(state.extra.get("_todo_summary"), Some(&serde_json::Value::String("all done".to_string())));
}

#[test]
fn counters_count_up_from_zero() {
    let mut state = AgentState::new();
    bump(&mut state, "calls");
    bump(&mut state, "calls");
    assert_eq!(state.extra.get("calls"), Some(&j(r#"2"#)));
    state.extra.insert("odd".to_string(), j(r#""x""#));
    bump(&mut state, "odd");
    assert_eq!(state.extra.get("odd"), Some(&j(r#"1"#)));
    state.extra.insert("max".to_string(), serde_json::Value::from(u64::MAX));
    bump(&mut state, "max");
    assert_eq!(state.extra.get("max"), Some(&serde_json::Value::from(u64::MAX)));
}

#[test]
fn cache_expires_and_evicts_least_recently_used() {
    let mut cache: MemoryCacheStore<u32> = MemoryCacheStore::new(10, 2);
    let r = cache.insert("a".to_string(), 1, 0);
    assert!(r.inserted);
    assert_eq!(r.evicted, 0);
    cache.insert("b".to_string(), 2, 1);
    let hit = cache.get("a", 5);
    assert_eq!(hit.value, Some(1));
    assert!(!hit.expired);
    let r = cache.insert("c".to_string(), 3, 6);
    assert_eq!(r.evicted, 1);
    assert_eq!(cache.get("b", 6).value, None);
    let r = cache.insert("a".to_string(), 4, 7);
    assert!(!r.inserted);
    let gone = cache.get("c", 16);
    assert!(gone.expired);
    assert_eq!(gone.value, None);
    assert_eq!(cache.len(), 1);
    let miss = cache.get("zzz", 0);
    assert!(!miss.expired);
}

#[test]
fn cache_insert_then_lookup_gives_the_value() {
    let mut cache: MemoryCacheStore<String> = MemoryCacheStore::new(u64::MAX, 0);
    cache.insert("k".to_string(), "v".to_string(), 100);
    assert_eq!(cache.get("k", u64::MAX - 1).value.as_deref(), Some("v"));
}

fn record(lines: &[&str]) -> FileRecord {
    FileRecord {
        content: lines.iter().map(|s| s.to_string()).collect(),
        created_at: Some("t0".to_string()),
        modified_at: None,
        deleted: false,
        truncated: false,
    }
}

#[test]
fn reducer_upserts_and_deletes() {
    let mut state = AgentState::new();
    state.filesystem.files.insert("/a".to_string(), record(&["x"]));
    let mut delta = FilesystemDelta::new();
    delta.files.insert("/b".to_string(), FileDelta { upsert: Some(record(&["y"])), delete: false });
    delta.files.insert("/a".to_string(), FileDelta { upsert: None, delete: true });
    DefaultFilesystemReducer.reduce(&mut state.filesystem, delta);
    let a = state.filesystem.files.get("/a").unwrap();
    assert!(a.deleted);
    assert!(a.content.is_empty());
    assert_eq!(a.created_at.as_deref(), Some("t0"));
    assert_eq!(state.filesystem.files.get("/b").unwrap().content, vec!["y".to_string()]);
}

#[test]
fn child_state_leaves_out_private_keys_and_merges_back() {
    assert!(is_excluded_state_key("todos"));
    assert!(!is_excluded_state_key("notes"));
    let mut parent = AgentState::new();
    parent.todos = vec![todo("1", "pending")];
    parent.extra.insert("notes".to_string(), j(r#""n""#));
    parent.extra.insert("messages".to_string(), j(r#"[]"#));
    parent.filesystem.files.insert("/f".to_string(), record(&["1"]));
    let child = filter_state_for_child(&parent);
    assert!(child.extra.contains_key("notes"));
    assert!(!child.extra.contains_key("messages"));
    assert!(child.filesystem.files.contains_key("/f"));
    let mut child = child;
    child.extra.insert("result".to_string(), j(r#"1"#));
    child.extra.insert("todos".to_string(), j(r#"[1]"#));
    merge_child_state(&mut parent, &child);
    assert!(parent.extra.contains_key("result"));
    assert!(parent.extra.contains_key("messages"));
    assert!(!parent.extra.contains_key("todos"));
    assert_eq!(parent.todos.len(), 1);
}

fn execution(name: &str, input: serde_json::Value, output: Option<serde_json::Value>) -> ToolExecution {
    ToolExecution { tool_name: name.to_string(), input, output, error: None }
}

#[test]
fn file_tools_report_their_change() {
    let t = execution("write_file", j(r#"{"file_path": "/in"}"#), Some(j(r#"{"path": "/out"}"#)));
    assert_eq!(file_change(&t), Some((FileAction::Upsert, "/out".to_string())));
    let t = execution("edit_file", j(r#"{"file_path": "/in"}"#), Some(j(r#"{"error": null}"#)));
    assert_eq!(file_change(&t), Some((FileAction::Upsert, "/in".to_string())));
    let t = execution("delete_file", j(r#"{"file_path": "/in"}"#), Some(j(r#"{}"#)));
    assert_eq!(file_change(&t), Some((FileAction::Delete, "/in".to_string())));
    let t = execution("write_file", j(r#"{"file_path": "/in"}"#), Some(j(r#"{"error": "denied"}"#)));
    assert_eq!(file_change(&t), None);
    let t = execution("read_file", j(r#"{"file_path": "/in"}"#), Some(j(r#"{}"#)));
    assert_eq!(file_change(&t), None);
    let t = execution("write_file", j(r#"{"file_path": "/in"}"#), None);
    assert_eq!(file_change(&t), None);
}

#[test]
fn numbered_lines_are_read_back() {
    let raw = "     1→first\n     2→a→b\nno arrow\n     3→third";
    let (lines, truncated) = parse_read_lines(raw, 10);
    assert_eq!(lines, vec!["first".to_string(), "a→b".to_string(), "third".to_string()]);
    assert!(!truncated);
    let (lines, truncated) = parse_read_lines(raw, 2);
    assert_eq!(lines.len(), 2);
    assert!(truncated);
}

#[test]
fn file_deltas_and_middleware_settings() {
    let d = file_delta(FileAction::Delete, "/x".to_string(), vec!["ignored".to_string()], true, "now".to_string());
    let fd = d.files.get("/x").unwrap();
    assert!(fd.delete);
    let rec = fd.upsert.as_ref().unwrap();
    assert!(rec.deleted && rec.content.is_empty() && !rec.truncated);
    assert_eq!(rec.modified_at.as_deref(), Some("now"));
    let m = FilesystemMiddleware::new();
    assert_eq!(m.max_lines, 2000);
    assert_eq!(m.with_max_lines(0).max_lines, 1);
    let mut state = AgentState::new();
    let d = file_delta(FileAction::Upsert, "/y".to_string(), vec!["l".to_string()], false, "now".to_string());
    FilesystemMiddleware::new().apply(&mut state.filesystem, d);
    assert_eq!(state.filesystem.files.get("/y").unwrap().content, vec!["l".to_string()]);
}
