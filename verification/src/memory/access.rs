//! Scope-aware read and write access for a resolved actor.
use vstd::prelude::*;

use crate::memory::identity::ResolvedMemoryActor;
use crate::memory::protocol::{entries_view, MemoryEntry, MemoryEntryView, MemoryScope};
use crate::text::str_eq;

verus! {

/// The actor may access the scope `scope_id` of kind `scope`: a thread or
/// user scope must be the actor's own, a workspace scope one of the actor's
/// workspaces; system scopes are never accessible.
pub open spec fn may_access(scope: MemoryScope, scope_id: Seq<char>, actor: ResolvedMemoryActor) -> bool {
    match scope {
        MemoryScope::Thread => actor.thread_id@ == scope_id,
        MemoryScope::User => actor.user_id@ == scope_id,
        MemoryScope::Workspace => actor.workspace_ids.elems().contains(scope_id),
        MemoryScope::System => false,
    }
}

/// The scope id of an entry; an entry without one has the empty id.
pub open spec fn entry_scope_id(entry: MemoryEntryView) -> Seq<char> {
    match entry.scope_id {
        Some(s) => s,
        None => Seq::empty(),
    }
}

/// The actor may read the entry.
pub open spec fn may_read(entry: MemoryEntryView, actor: ResolvedMemoryActor) -> bool {
    may_access(entry.scope, entry_scope_id(entry), actor)
}

/// Whether `actor` may access the scope (`scope`, `scope_id`).
pub fn can_access_scope(scope: MemoryScope, scope_id: &str, actor: &ResolvedMemoryActor) -> (r: bool)
    ensures
        r == may_access(scope, scope_id@, *actor),
{
    match scope {
        MemoryScope::Thread => str_eq(actor.thread_id.as_str(), scope_id),
        MemoryScope::User => str_eq(actor.user_id.as_str(), scope_id),
        MemoryScope::Workspace => actor.workspace_ids.contains(scope_id),
        MemoryScope::System => false,
    }
}

/// Whether `actor` may read `entry`.
pub fn can_read_entry(entry: &MemoryEntry, actor: &ResolvedMemoryActor) -> (r: bool)
    ensures
        r == may_read(entry@, *actor),
{
    match &entry.scope_id {
        Some(id) => can_access_scope(entry.scope, id.as_str(), actor),
        None => {
            proof {
                reveal_strlit("");
                assert(""@ =~= Seq::<char>::empty());
            }
            can_access_scope(entry.scope, "", actor)
        },
    }
}

/// Whether `actor` may write into the scope (`scope`, `scope_id`).
pub fn can_write_scope(scope: MemoryScope, scope_id: &str, actor: &ResolvedMemoryActor) -> (r: bool)
    ensures
        r == may_access(scope, scope_id@, *actor),
{
    can_access_scope(scope, scope_id, actor)
}

/// The readable entries, in their original order.
pub open spec fn readable(entries: Seq<MemoryEntryView>, actor: ResolvedMemoryActor) -> Seq<MemoryEntryView> {
    entries.filter(|e: MemoryEntryView| may_read(e, actor))
}

/// Keeps the entries that `actor` may read.
pub fn filter_readable_entries(entries: Vec<MemoryEntry>, actor: &ResolvedMemoryActor) -> (r: Vec<MemoryEntry>)
    ensures
        entries_view(r@) == readable(entries_view(entries@), *actor),
{
    let ghost pred = |e: MemoryEntryView| may_read(e, *actor);
    let ghost ev = entries_view(entries@);
    let mut out: Vec<MemoryEntry> = Vec::new();
    let mut i: usize = 0;
    while i < entries.len()
        invariant
            i <= entries.len(),
            ev == entries_view(entries@),
            pred == (|e: MemoryEntryView| may_read(e, *actor)),
            entries_view(out@) == ev.take(i as int).filter(pred),
        decreases entries.len() - i,
    {
        proof {
            crate::text::lemma_filter_push(ev.take(i as int), pred, ev[i as int]);
            assert(ev.take(i + 1) =~= ev.take(i as int).push(ev[i as int]));
            assert(ev[i as int] == entries@[i as int]@);
        }
        let keep = can_read_entry(&entries[i], actor);
        assert(keep == pred(ev[i as int]));
        if keep {
            let e = entries[i].clone();
            let ghost before = out@;
            out.push(e);
            assert(entries_view(out@) =~= entries_view(before).push(ev[i as int]));
        }
        i = i + 1;
    }
    assert(ev.take(entries.len() as int) =~= ev);
    out
}

} // verus!
