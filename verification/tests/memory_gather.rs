use deepagents::memory::gather::{
    phase_bonus, pinned_bonus, retrieval_phases, retrieval_warnings, scope_bonus, scope_memory_query, type_bonus,
};
use deepagents::memory::identity::ResolvedMemoryActor;
use deepagents::memory::retrieval::MemoryIntent;
use deepagents::memory::{MemoryEntry, MemoryScope, MemoryType};
use deepagents::string_set::StringSet;

fn actor(workspaces: &[&str]) -> ResolvedMemoryActor {
    let mut workspace_ids = StringSet::new();
    for w in workspaces {
        workspace_ids.insert(w.to_string());
    }
    ResolvedMemoryActor { user_id: "u1".to_string(), thread_id: "t1".to_string(), workspace_ids }
}

#[test]
fn retrieval_plan_has_four_phases_in_order() {
    let phases = retrieval_phases(&actor(&["ws_b", "ws_a"]));
    let names: Vec<&str> = phases.iter().map(|p| p.name.as_str()).collect();
    assert_eq!(names, vec!["recent_thread", "pinned_explicit", "user_scope", "workspace_scope"]);

    let recent = &phases[0].queries;
    assert_eq!(recent.len(), 1);
    assert_eq!(recent[0].scope, MemoryScope::Thread);
    assert_eq!(recent[0].scope_id, "t1");
    assert_eq!(recent[0].pinned, None);
    assert_eq!(recent[0].limit, 12);

    let pinned = &phases[1].queries;
    let ids: Vec<&str> = pinned.iter().map(|q| q.scope_id.as_str()).collect();
    assert_eq!(ids, vec!["t1", "u1", "ws_a", "ws_b"]);
    assert!(pinned.iter().all(|q| q.pinned == Some(true) && q.limit == 8));
    assert_eq!(pinned[2].scope, MemoryScope::Workspace);

    assert_eq!(phases[2].queries[0].scope, MemoryScope::User);
    assert_eq!(phases[2].queries[0].limit, 20);
    let ws: Vec<&str> = phases[3].queries.iter().map(|q| q.scope_id.as_str()).collect();
    assert_eq!(ws, vec!["ws_a", "ws_b"]);
    assert!(phases[3].queries.iter().all(|q| q.pinned.is_none() && q.limit == 20));
}

#[test]
fn retrieval_plan_without_workspaces_has_empty_workspace_phase() {
    let phases = retrieval_phases(&actor(&[]));
    assert_eq!(phases[1].queries.len(), 2);
    assert!(phases[3].queries.is_empty());
}

#[test]
fn scope_query_sets_only_its_filters() {
    let phases = retrieval_phases(&actor(&["ws_a"]));
    let q = scope_memory_query(&phases[1].queries[2]);
    assert_eq!(q.scope, Some(MemoryScope::Workspace));
    assert_eq!(q.scope_id.as_deref(), Some("ws_a"));
    assert_eq!(q.pinned, Some(true));
    assert_eq!(q.limit, Some(8));
    assert!(q.prefix.is_none() && q.tag.is_none() && q.status.is_none() && !q.include_inactive);
}

#[test]
fn bonuses_follow_intent() {
    assert_eq!(scope_bonus(MemoryScope::Workspace, MemoryIntent::Workspace), 250);
    assert_eq!(scope_bonus(MemoryScope::Thread, MemoryIntent::Personal), 250);
    assert_eq!(scope_bonus(MemoryScope::User, MemoryIntent::General), 180);
    assert_eq!(scope_bonus(MemoryScope::System, MemoryIntent::Mixed), 0);

    let mut entry = MemoryEntry::new("k", "v");
    entry.memory_type = MemoryType::Procedural;
    assert_eq!(type_bonus(&entry, MemoryIntent::PlanningTask), 100);
    entry.memory_type = MemoryType::Profile;
    assert_eq!(type_bonus(&entry, MemoryIntent::PreferenceSensitive), 80);
    entry.memory_type = MemoryType::Episodic;
    assert_eq!(type_bonus(&entry, MemoryIntent::FactualRecall), 30);

    assert_eq!(pinned_bonus(&entry), 0);
    entry.pinned = true;
    assert_eq!(pinned_bonus(&entry), 350);
    entry.pinned = false;
    entry.memory_type = MemoryType::Pinned;
    assert_eq!(pinned_bonus(&entry), 350);

    assert_eq!(phase_bonus("recent_thread"), 80);
    assert_eq!(phase_bonus("user_scope"), 0);
}

#[test]
fn warnings_for_missing_workspace_and_no_candidates() {
    assert!(retrieval_warnings(MemoryIntent::General, false, false).is_empty());
    assert_eq!(
        retrieval_warnings(MemoryIntent::Workspace, false, true),
        vec![
            "Workspace-oriented request detected, but no workspace membership was resolved.".to_string(),
            "No scoped memory matched this request.".to_string(),
        ]
    );
    assert!(retrieval_warnings(MemoryIntent::Mixed, true, false).is_empty());
    assert_eq!(retrieval_warnings(MemoryIntent::Personal, false, false).len(), 0);
}
