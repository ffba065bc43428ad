use deepagents::memory::identity::{LocalIdentityResolver, MemoryActorInput, MemoryIdentityResolver};

#[test]
fn local_identity_resolver_uses_explicit_ids_when_present() {
    let resolver = LocalIdentityResolver::new("/tmp/project");
    let actor = resolver.resolve_actor(&MemoryActorInput {
        user_id: Some("user_1".to_string()),
        thread_id: Some("thread_1".to_string()),
        workspace_ids: vec!["ws_a".to_string(), "ws_b".to_string()],
    });
    assert_eq!(actor.user_id, "user_1");
    assert_eq!(actor.thread_id, "thread_1");
    assert!(actor.workspace_ids.contains("ws_a"));
    assert!(actor.workspace_ids.contains("ws_b"));
}

#[test]
fn local_identity_resolver_synthesizes_compatibility_ids() {
    let resolver = LocalIdentityResolver::new("/tmp/project");
    let actor = resolver.resolve_actor(&MemoryActorInput::default());
    assert_eq!(actor.user_id, "__user__");
    assert_eq!(actor.thread_id, "__thread__");
    assert_eq!(actor.workspace_ids.len(), 1);
    assert_eq!(
        actor.workspace_ids.iter().next().unwrap(),
        "__compat_workspace__"
    );
}

#[test]
fn workspace_ids_are_deduplicated_and_ordered() {
    let resolver = LocalIdentityResolver::new("/tmp/project");
    let actor = resolver.resolve_actor(&MemoryActorInput {
        user_id: None,
        thread_id: None,
        workspace_ids: vec!["ws_b".to_string(), "ws_a".to_string(), "ws_b".to_string()],
    });
    let ids: Vec<&str> = actor.workspace_ids.iter().map(|s| s.as_str()).collect();
    assert_eq!(ids, vec!["ws_a", "ws_b"]);
}

#[test]
fn local_identity_resolution_ignores_root() {
    let input = MemoryActorInput {
        user_id: None,
        thread_id: Some("t".to_string()),
        workspace_ids: vec!["w2".to_string(), "w1".to_string()],
    };
    let a = LocalIdentityResolver::new("/a").resolve_actor(&input);
    let b = LocalIdentityResolver::new("/somewhere/else").resolve_actor(&input);
    assert_eq!(a, b);
    let empty = MemoryActorInput::default();
    assert_eq!(
        LocalIdentityResolver::new("").resolve_actor(&empty),
        LocalIdentityResolver::new("/x").resolve_actor(&empty)
    );
}
