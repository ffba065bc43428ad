//! The state a sub-agent starts from and the state merged back.
use vstd::prelude::*;

use crate::state::{AgentPrivateState, AgentState, clone_todos, record_at};
use crate::str_map::StrMap;
use crate::text::{owned, str_eq};

verus! {

/// The input of the `task` tool.
#[derive(Debug, Clone)]
pub struct TaskInput {
    pub description: String,
    pub subagent_type: String,
}

/// What a sub-agent run gives back.
#[derive(Debug)]
pub struct SubAgentRunOutput {
    pub final_text: String,
    pub state: AgentState,
}

/// A registered sub-agent.
#[derive(Debug, Clone)]
pub struct SubAgentInfo {
    pub subagent_type: String,
    pub description: String,
}

/// Keys of the extras that belong to one agent and never cross to another.
pub open spec fn excluded_state_keys() -> Set<Seq<char>> {
    set!["messages"@, "todos"@, "structured_response"@, "skills_metadata"@, "memory_contents"@]
}

/// Whether `key` is one of the keys kept from sub-agents.
pub fn is_excluded_state_key(key: &str) -> (r: bool)
    ensures
        r == excluded_state_keys().contains(key@),
{
    str_eq(key, "messages") || str_eq(key, "todos") || str_eq(key, "structured_response") || str_eq(
        key,
        "skills_metadata",
    ) || str_eq(key, "memory_contents")
}

fn copy_extras(m: &StrMap<serde_json::Value>, keep_excluded: bool, into: &mut StrMap<serde_json::Value>)
    ensures
        final(into).map() == old(into).map().union_prefer_right(
            if keep_excluded {
                m.map()
            } else {
                m.map().remove_keys(excluded_state_keys())
            },
        ),
{
    let ghost src = if keep_excluded {
        m.map()
    } else {
        m.map().remove_keys(excluded_state_keys())
    };
    let ghost start = into.map();
    let n = m.len();
    let mut i: usize = 0;
    while i < n
        invariant
            i <= n,
            n == m.keys().len(),
            src == if keep_excluded {
                m.map()
            } else {
                m.map().remove_keys(excluded_state_keys())
            },
            into.map() == start.union_prefer_right(src.restrict(m.keys().take(i as int).to_set())),
        decreases n - i,
    {
        let (k, v) = m.entry_at(i);
        let ghost kv = k@;
        let ghost prev = into.map();
        if keep_excluded || !is_excluded_state_key(k.as_str()) {
            into.insert(k.clone(), v.clone());
        }
        proof {
            let s0 = m.keys().take(i as int).to_set();
            let s1 = m.keys().take(i + 1).to_set();
            assert(s1 =~= s0.insert(kv)) by {
                assert forall|x: Seq<char>| s1.contains(x) <==> s0.insert(kv).contains(x) by {
                    let t1 = m.keys().take(i + 1);
                    let t0 = m.keys().take(i as int);
                    if t1.contains(x) {
                        let j = choose|j: int| 0 <= j < t1.len() && t1[j] == x;
                        if j < i {
                            assert(t0[j] == x);
                        }
                    }
                    if t0.contains(x) {
                        let j = choose|j: int| 0 <= j < t0.len() && t0[j] == x;
                        assert(t1[j] == x);
                    }
                    if x == kv {
                        assert(t1[i as int] == kv);
                    }
                }
            }
            assert(into.map() =~= start.union_prefer_right(src.restrict(s1)));
        }
        i = i + 1;
    }
    proof {
        assert(m.keys().take(n as int) =~= m.keys());
        assert(src.restrict(m.keys().to_set()) =~= src);
    }
}

/// The state a sub-agent starts from: the parent's files, todos and
/// extras, without the keys that belong to the parent alone, and with
/// nothing of the parent's private state.
pub fn filter_state_for_child(parent: &AgentState) -> (r: AgentState)
    ensures
        forall|p: Seq<char>| record_at(r.filesystem.files.map(), p) == record_at(parent.filesystem.files.map(), p),
        r.todos@ == parent.todos@,
        r.extra.map() == parent.extra.map().remove_keys(excluded_state_keys()),
        !r.private.memory_loaded,
        r.private.memory_contents is None,
{
    let mut extra: StrMap<serde_json::Value> = StrMap::new();
    copy_extras(&parent.extra, false, &mut extra);
    assert(extra.map() =~= parent.extra.map().remove_keys(excluded_state_keys()));
    AgentState {
        filesystem: parent.filesystem.duplicate(),
        todos: clone_todos(&parent.todos),
        extra,
        private: AgentPrivateState::new(),
    }
}

/// Takes a sub-agent's results back: its files replace the parent's, and
/// its extras are written over the parent's, but for the keys that belong
/// to one agent alone.
pub fn merge_child_state(parent: &mut AgentState, child: &AgentState)
    ensures
        forall|p: Seq<char>| record_at(final(parent).filesystem.files.map(), p) == record_at(child.filesystem.files.map(), p),
        final(parent).todos == old(parent).todos,
        final(parent).private == old(parent).private,
        final(parent).extra.map() == old(parent).extra.map().union_prefer_right(
            child.extra.map().remove_keys(excluded_state_keys()),
        ),
{
    parent.filesystem = child.filesystem.duplicate();
    copy_extras(&child.extra, false, &mut parent.extra);
}

/// The keys of the extras, in increasing order.
pub fn state_extra_keys(state: &AgentState) -> (r: Vec<String>)
    ensures
        r@.map_values(|s: String| s@) == state.extra.keys(),
{
    state.extra.key_list()
}

/// Builds extras from key-value pairs; a later pair wins over an earlier
/// one with the same key.
pub fn state_extra_from_pairs(pairs: Vec<(&str, serde_json::Value)>) -> (r: StrMap<serde_json::Value>)
    ensures
        forall|k: Seq<char>| r.map().dom().contains(k) <==> exists|i: int| 0 <= i < pairs.len() && (#[trigger] pairs@[i]).0@ == k,
        forall|i: int| 0 <= i < pairs.len() && (forall|j: int| i < j < pairs.len() ==> (#[trigger] pairs@[j]).0@ != pairs@[i].0@)
            ==> r.map()[(#[trigger] pairs@[i]).0@] == pairs@[i].1,
{
    let mut out: StrMap<serde_json::Value> = StrMap::new();
    let mut i: usize = 0;
    while i < pairs.len()
        invariant
            i <= pairs.len(),
            forall|k: Seq<char>| out.map().dom().contains(k) <==> exists|j: int| 0 <= j < i && (#[trigger] pairs@[j]).0@ == k,
            forall|a: int| 0 <= a < i && (forall|j: int| a < j < i ==> (#[trigger] pairs@[j]).0@ != pairs@[a].0@)
                ==> out.map()[(#[trigger] pairs@[a]).0@] == pairs@[a].1,
        decreases pairs.len() - i,
    {
        let (k, v) = &pairs[i];
        let ghost prev = out.map();
        out.insert(owned(k), v.clone());
        proof {
            assert forall|kk: Seq<char>| out.map().dom().contains(kk) <==> exists|j: int| 0 <= j < i + 1 && (#[trigger] pairs@[j]).0@ == kk by {
                if kk == pairs@[i as int].0@ {
                    assert(pairs@[i as int].0@ == kk);
                } else if prev.dom().contains(kk) {
                    let j = choose|j: int| 0 <= j < i && (#[trigger] pairs@[j]).0@ == kk;
                    assert(0 <= j < i + 1);
                } else if exists|j: int| 0 <= j < i + 1 && (#[trigger] pairs@[j]).0@ == kk {
                    let j = choose|j: int| 0 <= j < i + 1 && (#[trigger] pairs@[j]).0@ == kk;
                    assert(j < i);
                }
            }
            assert forall|a: int| 0 <= a < i + 1 && (forall|j: int| a < j < i + 1 ==> (#[trigger] pairs@[j]).0@ != pairs@[a].0@)
                implies out.map()[(#[trigger] pairs@[a]).0@] == pairs@[a].1 by {
                if a < i {
                    assert(pairs@[i as int].0@ != pairs@[a].0@);
                    assert forall|j: int| a < j < i implies (#[trigger] pairs@[j]).0@ != pairs@[a].0@ by {
                        assert(a < j < i + 1);
                    }
                }
            }
        }
        i = i + 1;
    }
    out
}

/// A sub-agent never sees a key that belongs to one agent alone.
pub proof fn law_child_state_has_no_excluded_key(parent_extra: Map<Seq<char>, serde_json::Value>, k: Seq<char>)
    requires
        excluded_state_keys().contains(k),
    ensures
        !parent_extra.remove_keys(excluded_state_keys()).dom().contains(k),
{
}

/// Merging a child's state back never touches the parent's own keys.
pub proof fn law_merge_keeps_parent_keys(
    parent_extra: Map<Seq<char>, serde_json::Value>,
    child_extra: Map<Seq<char>, serde_json::Value>,
    k: Seq<char>,
)
    requires
        excluded_state_keys().contains(k),
    ensures
        ({
            let merged = parent_extra.union_prefer_right(child_extra.remove_keys(excluded_state_keys()));
            &&& merged.dom().contains(k) == parent_extra.dom().contains(k)
            &&& parent_extra.dom().contains(k) ==> merged[k] == parent_extra[k]
        }),
{
}

/// Handing a parent's state to a child and merging it straight back leaves
/// the parent's extras as they were.
pub proof fn law_filter_then_merge_is_identity(parent_extra: Map<Seq<char>, serde_json::Value>)
    ensures
        parent_extra.union_prefer_right(
            parent_extra.remove_keys(excluded_state_keys()).remove_keys(excluded_state_keys()),
        ) == parent_extra,
{
    assert(parent_extra.union_prefer_right(
        parent_extra.remove_keys(excluded_state_keys()).remove_keys(excluded_state_keys()),
    ) =~= parent_extra);
}

} // verus!
