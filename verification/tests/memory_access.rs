use deepagents::memory::access::{can_access_scope, can_read_entry, can_write_scope, filter_readable_entries};
use deepagents::memory::identity::ResolvedMemoryActor;
use deepagents::memory::{MemoryEntry, MemoryScope};
use deepagents::string_set::StringSet;

fn actor() -> ResolvedMemoryActor {
    let mut workspace_ids = StringSet::new();
    workspace_ids.insert("ws_a".to_string());
    ResolvedMemoryActor {
        user_id: "user_1".to_string(),
        thread_id: "thread_1".to_string(),
        workspace_ids,
    }
}

#[test]
fn read_access_is_scope_aware() {
    let actor = actor();
    let mut thread_entry = MemoryEntry::new("thread", "value");
    thread_entry.scope = MemoryScope::Thread;
    thread_entry.scope_id = Some("thread_1".to_string());
    assert!(can_read_entry(&thread_entry, &actor));

    let mut user_entry = MemoryEntry::new("user", "value");
    user_entry.scope = MemoryScope::User;
    user_entry.scope_id = Some("user_1".to_string());
    assert!(can_read_entry(&user_entry, &actor));

    let mut workspace_entry = MemoryEntry::new("workspace", "value");
    workspace_entry.scope = MemoryScope::Workspace;
    workspace_entry.scope_id = Some("ws_a".to_string());
    assert!(can_read_entry(&workspace_entry, &actor));

    let mut blocked = MemoryEntry::new("blocked", "value");
    blocked.scope = MemoryScope::User;
    blocked.scope_id = Some("user_2".to_string());
    assert!(!can_read_entry(&blocked, &actor));
}

#[test]
fn write_access_is_scope_aware() {
    let actor = actor();
    assert!(can_write_scope(MemoryScope::Thread, "thread_1", &actor));
    assert!(can_write_scope(MemoryScope::User, "user_1", &actor));
    assert!(can_write_scope(MemoryScope::Workspace, "ws_a", &actor));
    assert!(!can_write_scope(MemoryScope::User, "user_2", &actor));
    assert!(!can_write_scope(MemoryScope::System, "__system__", &actor));
}

#[test]
fn system_scope_is_never_accessible() {
    let actor = actor();
    assert!(!can_access_scope(MemoryScope::System, "", &actor));
    assert!(!can_access_scope(MemoryScope::Workspace, "ws_b", &actor));
    assert!(!can_access_scope(MemoryScope::Thread, "thread_2", &actor));
}

#[test]
fn entry_without_scope_id_matches_only_empty_ids() {
    let actor = actor();
    let mut entry = MemoryEntry::new("k", "v");
    entry.scope = MemoryScope::Thread;
    assert!(!can_read_entry(&entry, &actor));
}

#[test]
fn filter_keeps_readable_entries_in_order() {
    let actor = actor();
    let mut a = MemoryEntry::new("a", "1");
    a.scope = MemoryScope::Thread;
    a.scope_id = Some("thread_1".to_string());
    let mut b = MemoryEntry::new("b", "2");
    b.scope = MemoryScope::User;
    b.scope_id = Some("user_2".to_string());
    let mut c = MemoryEntry::new("c", "3");
    c.scope = MemoryScope::Workspace;
    c.scope_id = Some("ws_a".to_string());
    let out = filter_readable_entries(vec![a, b, c], &actor);
    let keys: Vec<&str> = out.iter().map(|e| e.key.as_str()).collect();
    assert_eq!(keys, vec!["a", "c"]);
}
