//! The candidate-gathering side of memory retrieval: which store queries a
//! request issues, in which phases, the fixed score bonuses of an entry, and
//! the warnings attached to the pack.
use vstd::prelude::*;

use crate::memory::identity::ResolvedMemoryActor;
use crate::memory::protocol::{MemoryEntry, MemoryQuery, MemoryScope, MemoryType, strs_view};
use crate::memory::retrieval::{MemoryIntent, no_match_warning};
use crate::text::{owned, str_eq};

verus! {

/// One store query: the entries of a scope, optionally only pinned ones, up
/// to a limit.
#[derive(Debug, Clone)]
pub struct ScopeQuery {
    pub scope: MemoryScope,
    pub scope_id: String,
    pub pinned: Option<bool>,
    pub limit: usize,
}

/// A named group of store queries whose results are counted together.
#[derive(Debug, Clone)]
pub struct RetrievalPhase {
    pub name: String,
    pub queries: Vec<ScopeQuery>,
}

/// A query as plain values: scope, scope id, pinned filter, limit.
pub type QuerySpec = (MemoryScope, Seq<char>, Option<bool>, nat);

pub open spec fn query_spec(q: ScopeQuery) -> QuerySpec {
    (q.scope, q.scope_id@, q.pinned, q.limit as nat)
}

pub open spec fn query_specs(qs: Seq<ScopeQuery>) -> Seq<QuerySpec> {
    qs.map_values(|q: ScopeQuery| query_spec(q))
}

pub open spec fn phase_specs(ps: Seq<RetrievalPhase>) -> Seq<(Seq<char>, Seq<QuerySpec>)> {
    ps.map_values(|p: RetrievalPhase| (p.name@, query_specs(p.queries@)))
}

/// One query per workspace, in the order given.
pub open spec fn workspace_queries(ws: Seq<Seq<char>>, pinned: Option<bool>, limit: nat) -> Seq<QuerySpec> {
    ws.map_values(|w: Seq<char>| (MemoryScope::Workspace, w, pinned, limit))
}

/// The retrieval plan of an actor: the twelve latest thread entries; the
/// pinned entries (eight at most per scope) of the thread, the user and each
/// workspace; twenty user entries; twenty entries of each workspace.
/// Workspaces come in increasing order.
pub open spec fn phase_plan(actor: ResolvedMemoryActor) -> Seq<(Seq<char>, Seq<QuerySpec>)> {
    let t = actor.thread_id@;
    let u = actor.user_id@;
    let ws = actor.workspace_ids.elems();
    seq![
        ("recent_thread"@, seq![(MemoryScope::Thread, t, None::<bool>, 12nat)]),
        ("pinned_explicit"@,
            seq![(MemoryScope::Thread, t, Some(true), 8nat), (MemoryScope::User, u, Some(true), 8nat)]
                + workspace_queries(ws, Some(true), 8)),
        ("user_scope"@, seq![(MemoryScope::User, u, None::<bool>, 20nat)]),
        ("workspace_scope"@, workspace_queries(ws, None, 20)),
    ]
}

fn scope_query(scope: MemoryScope, scope_id: &String, pinned: Option<bool>, limit: usize) -> (r: ScopeQuery)
    ensures
        query_spec(r) == (scope, scope_id@, pinned, limit as nat),
{
    ScopeQuery { scope, scope_id: scope_id.clone(), pinned, limit }
}

fn workspace_scope_queries(ws: &[String], pinned: Option<bool>, limit: usize, out: &mut Vec<ScopeQuery>)
    ensures
        query_specs(final(out)@) == query_specs(old(out)@) + workspace_queries(
            ws@.map_values(|s: String| s@),
            pinned,
            limit as nat,
        ),
{
    let ghost start = query_specs(out@);
    let ghost wv = ws@.map_values(|s: String| s@);
    let mut i: usize = 0;
    while i < ws.len()
        invariant
            i <= ws.len(),
            wv == ws@.map_values(|s: String| s@),
            query_specs(out@) == start + workspace_queries(wv.take(i as int), pinned, limit as nat),
        decreases ws.len() - i,
    {
        let q = scope_query(MemoryScope::Workspace, &ws[i], pinned, limit);
        let ghost before = out@;
        out.push(q);
        proof {
            assert(wv.take(i as int + 1) =~= wv.take(i as int).push(wv[i as int]));
            assert(query_specs(out@) =~= query_specs(before).push(query_spec(q)));
            assert(workspace_queries(wv.take(i as int + 1), pinned, limit as nat) =~= workspace_queries(
                wv.take(i as int),
                pinned,
                limit as nat,
            ).push((MemoryScope::Workspace, wv[i as int], pinned, limit as nat)));
        }
        i = i + 1;
    }
    proof {
        assert(wv.take(ws.len() as int) =~= wv);
    }
}

/// The store queries of a retrieval, grouped in its four phases.
pub fn retrieval_phases(actor: &ResolvedMemoryActor) -> (r: Vec<RetrievalPhase>)
    ensures
        phase_specs(r@) == phase_plan(*actor),
{
    let ws = actor.workspace_ids.as_slice();
    proof {
        assert(ws@.map_values(|s: String| s@) =~= actor.workspace_ids.elems());
    }
    let mut recent: Vec<ScopeQuery> = Vec::new();
    recent.push(scope_query(MemoryScope::Thread, &actor.thread_id, None, 12));
    let mut pinned: Vec<ScopeQuery> = Vec::new();
    pinned.push(scope_query(MemoryScope::Thread, &actor.thread_id, Some(true), 8));
    pinned.push(scope_query(MemoryScope::User, &actor.user_id, Some(true), 8));
    proof {
        assert(query_specs(pinned@) =~= seq![
            (MemoryScope::Thread, actor.thread_id@, Some(true), 8nat),
            (MemoryScope::User, actor.user_id@, Some(true), 8nat),
        ]);
    }
    workspace_scope_queries(ws, Some(true), 8, &mut pinned);
    let mut user: Vec<ScopeQuery> = Vec::new();
    user.push(scope_query(MemoryScope::User, &actor.user_id, None, 20));
    let mut workspace: Vec<ScopeQuery> = Vec::new();
    workspace_scope_queries(ws, None, 20, &mut workspace);
    proof {
        assert(query_specs(recent@) =~= seq![(MemoryScope::Thread, actor.thread_id@, None::<bool>, 12nat)]);
        assert(query_specs(user@) =~= seq![(MemoryScope::User, actor.user_id@, None::<bool>, 20nat)]);
        assert(Seq::<ScopeQuery>::empty().map_values(|q: ScopeQuery| query_spec(q)) =~= Seq::<QuerySpec>::empty());
    }
    let mut r: Vec<RetrievalPhase> = Vec::new();
    r.push(RetrievalPhase { name: owned("recent_thread"), queries: recent });
    r.push(RetrievalPhase { name: owned("pinned_explicit"), queries: pinned });
    r.push(RetrievalPhase { name: owned("user_scope"), queries: user });
    r.push(RetrievalPhase { name: owned("workspace_scope"), queries: workspace });
    proof {
        assert(phase_specs(r@) =~= phase_plan(*actor));
    }
    r
}

/// The store query a scope query stands for: its scope, scope id, pinned
/// filter and limit, every other filter unset.
pub fn scope_memory_query(q: &ScopeQuery) -> (r: MemoryQuery)
    ensures
        r.scope == Some(q.scope),
        r.scope_id matches Some(id) && id@ == q.scope_id@,
        r.pinned == q.pinned,
        r.limit == Some(q.limit),
        r.prefix is None,
        r.tag is None,
        r.memory_type is None,
        r.status is None,
        !r.include_inactive,
        r.actor_user_id is None,
        r.actor_thread_id is None,
        r.actor_workspace_id is None,
        r.actor_channel_account_id is None,
{
    let mut r = MemoryQuery::default();
    r.scope = Some(q.scope);
    r.scope_id = Some(q.scope_id.clone());
    r.pinned = q.pinned;
    r.limit = Some(q.limit);
    r
}

// ----- fixed score bonuses, in thousandths -----

/// The bonus of an entry's scope under an intent: work-oriented requests
/// favour the workspace, personal ones the thread and the user, the rest
/// the thread; system memory gets none.
pub open spec fn scope_bonus_of(scope: MemoryScope, intent: MemoryIntent) -> nat {
    match intent {
        MemoryIntent::Workspace | MemoryIntent::PlanningTask => match scope {
            MemoryScope::Thread => 220,
            MemoryScope::Workspace => 250,
            MemoryScope::User => 120,
            MemoryScope::System => 0,
        },
        MemoryIntent::PreferenceSensitive | MemoryIntent::Personal | MemoryIntent::MemorizeCommand => match scope {
            MemoryScope::Thread => 250,
            MemoryScope::User => 220,
            MemoryScope::Workspace => 100,
            MemoryScope::System => 0,
        },
        MemoryIntent::Mixed | MemoryIntent::FactualRecall | MemoryIntent::General => match scope {
            MemoryScope::Thread => 240,
            MemoryScope::User => 180,
            MemoryScope::Workspace => 160,
            MemoryScope::System => 0,
        },
    }
}

/// The bonus of an entry's memory type under an intent.
pub open spec fn type_bonus_of(memory_type: MemoryType, intent: MemoryIntent) -> nat {
    match intent {
        MemoryIntent::PreferenceSensitive | MemoryIntent::Personal | MemoryIntent::MemorizeCommand => match memory_type {
            MemoryType::Procedural | MemoryType::Pinned => 100,
            MemoryType::Profile => 80,
            MemoryType::Semantic => 50,
            MemoryType::Episodic => 20,
        },
        MemoryIntent::PlanningTask | MemoryIntent::Workspace => match memory_type {
            MemoryType::Procedural => 100,
            MemoryType::Semantic | MemoryType::Pinned => 70,
            MemoryType::Episodic => 40,
            MemoryType::Profile => 20,
        },
        MemoryIntent::Mixed | MemoryIntent::FactualRecall | MemoryIntent::General => match memory_type {
            MemoryType::Pinned => 90,
            MemoryType::Semantic => 70,
            MemoryType::Profile => 60,
            MemoryType::Procedural => 50,
            MemoryType::Episodic => 30,
        },
    }
}

/// The scope bonus, in thousandths.
pub fn scope_bonus(scope: MemoryScope, intent: MemoryIntent) -> (r: u32)
    ensures
        r == scope_bonus_of(scope, intent),
{
    match intent {
        MemoryIntent::Workspace | MemoryIntent::PlanningTask => match scope {
            MemoryScope::Thread => 220,
            MemoryScope::Workspace => 250,
            MemoryScope::User => 120,
            MemoryScope::System => 0,
        },
        MemoryIntent::PreferenceSensitive | MemoryIntent::Personal | MemoryIntent::MemorizeCommand => match scope {
            MemoryScope::Thread => 250,
            MemoryScope::User => 220,
            MemoryScope::Workspace => 100,
            MemoryScope::System => 0,
        },
        MemoryIntent::Mixed | MemoryIntent::FactualRecall | MemoryIntent::General => match scope {
            MemoryScope::Thread => 240,
            MemoryScope::User => 180,
            MemoryScope::Workspace => 160,
            MemoryScope::System => 0,
        },
    }
}

/// The memory-type bonus of an entry, in thousandths.
pub fn type_bonus(entry: &MemoryEntry, intent: MemoryIntent) -> (r: u32)
    ensures
        r == type_bonus_of(entry.memory_type, intent),
{
    match intent {
        MemoryIntent::PreferenceSensitive | MemoryIntent::Personal | MemoryIntent::MemorizeCommand => match entry.memory_type {
            MemoryType::Procedural | MemoryType::Pinned => 100,
            MemoryType::Profile => 80,
            MemoryType::Semantic => 50,
            MemoryType::Episodic => 20,
        },
        MemoryIntent::PlanningTask | MemoryIntent::Workspace => match entry.memory_type {
            MemoryType::Procedural => 100,
            MemoryType::Semantic | MemoryType::Pinned => 70,
            MemoryType::Episodic => 40,
            MemoryType::Profile => 20,
        },
        MemoryIntent::Mixed | MemoryIntent::FactualRecall | MemoryIntent::General => match entry.memory_type {
            MemoryType::Pinned => 90,
            MemoryType::Semantic => 70,
            MemoryType::Profile => 60,
            MemoryType::Procedural => 50,
            MemoryType::Episodic => 30,
        },
    }
}

/// The bonus of a pinned entry (pinned flag or pinned type), in thousandths.
pub fn pinned_bonus(entry: &MemoryEntry) -> (r: u32)
    ensures
        r == if entry.pinned || entry.memory_type == MemoryType::Pinned { 350u32 } else { 0u32 },
{
    if entry.pinned || matches!(entry.memory_type, MemoryType::Pinned) {
        350
    } else {
        0
    }
}

/// The bonus of an entry found by the recent-thread phase, in thousandths.
pub fn phase_bonus(phase: &str) -> (r: u32)
    ensures
        r == if phase@ == "recent_thread"@ { 80u32 } else { 0u32 },
{
    if str_eq(phase, "recent_thread") {
        80
    } else {
        0
    }
}

// ----- warnings -----

pub open spec fn workspace_missing_warning() -> Seq<char> {
    "Workspace-oriented request detected, but no workspace membership was resolved."@
}

/// The warnings of a retrieval: a workspace-oriented (or mixed) request of
/// an actor without workspaces, then the absence of any candidate.
pub open spec fn retrieval_warning_texts(intent: MemoryIntent, has_workspace: bool, no_candidates: bool) -> Seq<Seq<char>> {
    (if (intent == MemoryIntent::Workspace || intent == MemoryIntent::Mixed) && !has_workspace {
        seq![workspace_missing_warning()]
    } else {
        Seq::empty()
    }) + (if no_candidates { seq![no_match_warning()] } else { Seq::empty() })
}

/// The warnings of a retrieval.
pub fn retrieval_warnings(intent: MemoryIntent, has_workspace: bool, no_candidates: bool) -> (r: Vec<String>)
    ensures
        strs_view(r@) == retrieval_warning_texts(intent, has_workspace, no_candidates),
{
    let mut r: Vec<String> = Vec::new();
    if matches!(intent, MemoryIntent::Workspace | MemoryIntent::Mixed) && !has_workspace {
        r.push(owned("Workspace-oriented request detected, but no workspace membership was resolved."));
    }
    if no_candidates {
        r.push(owned("No scoped memory matched this request."));
    }
    proof {
        assert(strs_view(r@) =~= retrieval_warning_texts(intent, has_workspace, no_candidates));
    }
    r
}

} // verus!
