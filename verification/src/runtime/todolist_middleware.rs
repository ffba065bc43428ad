//! The `write_todos` tool: validates a batch of todo changes and applies it
//! to the agent state as one step, or not at all.
use vstd::prelude::*;

use crate::json::{JsonKind, json_as_u64, json_from_str, json_from_u64, json_kind_of, json_str_of, json_u64_of};
use crate::state::{AgentState, TodoItem, clone_todos};
use crate::string_set::StringSet;
use crate::text::{is_blank, owned, push_str, str_eq, str_is_blank, str_trim, trim, lemma_trim_blank};
use crate::types::{clone_opt, opt_str_view};

verus! {

/// The runtime middleware that serves `write_todos`.
#[derive(Debug, Clone, Default)]
pub struct TodoListMiddleware;

impl TodoListMiddleware {
    pub fn new() -> (r: Self) {
        TodoListMiddleware
    }
}

/// One todo change of a `write_todos` call.
#[derive(Debug, Clone)]
pub struct WriteTodoPatch {
    pub id: String,
    pub content: Option<String>,
    pub status: Option<String>,
    pub priority: Option<String>,
    pub active_form: Option<String>,
}

/// The input of a `write_todos` call.
#[derive(Debug, Clone)]
pub struct WriteTodosInput {
    pub todos: Vec<WriteTodoPatch>,
    /// Update todos by id instead of replacing the list.
    pub merge: bool,
    /// Allowed only when a todo becomes completed.
    pub summary: Option<String>,
}

/// A todo as values.
pub struct TodoView {
    pub id: Seq<char>,
    pub content: Seq<char>,
    pub status: Seq<char>,
    pub priority: Seq<char>,
    pub active_form: Option<Seq<char>>,
}

pub open spec fn todo_view(t: TodoItem) -> TodoView {
    TodoView {
        id: t.id@,
        content: t.content@,
        status: t.status@,
        priority: t.priority@,
        active_form: opt_str_view(t.active_form),
    }
}

pub open spec fn todos_view(v: Seq<TodoItem>) -> Seq<TodoView> {
    v.map_values(|t: TodoItem| todo_view(t))
}

/// A field given with something besides white space, trimmed.
pub open spec fn given(f: Option<String>) -> Option<Seq<char>> {
    match f {
        Some(s) => if is_blank(s@) {
            None
        } else {
            Some(trim(s@))
        },
        None => None,
    }
}

/// The first error among the ids of a batch: a blank id, or an id (trimmed)
/// that an earlier change already names.
pub open spec fn id_error(items: Seq<WriteTodoPatch>) -> Option<Seq<char>>
    decreases items.len(),
{
    if items.len() == 0 {
        None
    } else {
        match id_error(items.drop_last()) {
            Some(e) => Some(e),
            None => {
                let id = trim(items.last().id@);
                if id.len() == 0 {
                    Some("invalid_request: todo id is required"@)
                } else if exists|j: int| 0 <= j < items.len() - 1 && #[trigger] trim(items[j].id@) == id {
                    Some("invalid_request: duplicate todo id: "@ + id)
                } else {
                    None
                }
            },
        }
    }
}

/// Checks that every change names a distinct, non-blank id.
pub fn validate_no_duplicate_ids(items: &[WriteTodoPatch]) -> (r: Result<(), String>)
    ensures
        match (r, id_error(items@)) {
            (Ok(()), None) => true,
            (Err(e), Some(m)) => e@ == m,
            _ => false,
        },
{
    let mut seen = StringSet::new();
    let mut i: usize = 0;
    while i < items.len()
        invariant
            i <= items.len(),
            id_error(items@.take(i as int)) is None,
            forall|x: Seq<char>| seen.view_set().contains(x) <==> exists|j: int| 0 <= j < i && #[trigger] trim(items@[j].id@) == x,
        decreases items.len() - i,
    {
        let id = str_trim(items[i].id.as_str());
        let ghost pre = items@.take(i as int + 1);
        assert(pre.drop_last() =~= items@.take(i as int));
        proof {
            lemma_trim_blank(items@[i as int].id@);
            lemma_trim_blank(trim(items@[i as int].id@));
        }
        if id.as_str().is_empty() {
            proof {
                lemma_id_error_prefix(items@, i as int + 1);
            }
            return Err(owned("invalid_request: todo id is required"));
        }
        if seen.contains(id.as_str()) {
            assert(seen.view_set().contains(id@));
            let ghost j = choose|j: int| 0 <= j < i && #[trigger] trim(items@[j].id@) == id@;
            assert(trim(pre[j].id@) == id@);
            proof {
                lemma_id_error_prefix(items@, i as int + 1);
            }
            let mut e = owned("invalid_request: duplicate todo id: ");
            push_str(&mut e, id.as_str());
            return Err(e);
        }
        assert forall|j: int| 0 <= j < pre.len() - 1 implies #[trigger] trim(pre[j].id@) != id@ by {
            assert(pre[j] == items@[j]);
            if trim(items@[j].id@) == id@ {
                assert(seen.view_set().contains(id@));
            }
        }
        let ghost idv = id@;
        seen.insert(id);
        proof {
            assert forall|x: Seq<char>| seen.view_set().contains(x) <==> exists|j: int| 0 <= j < i + 1 && #[trigger] trim(items@[j].id@) == x by {
                if x == idv {
                    assert(trim(items@[i as int].id@) == x);
                }
                if exists|j: int| 0 <= j < i + 1 && #[trigger] trim(items@[j].id@) == x {
                    let j = choose|j: int| 0 <= j < i + 1 && #[trigger] trim(items@[j].id@) == x;
                    if j < i {
                        assert(exists|j2: int| 0 <= j2 < i && #[trigger] trim(items@[j2].id@) == x);
                    }
                }
            }
        }
        i = i + 1;
    }
    assert(items@.take(items.len() as int) =~= items@);
    Ok(())
}

/// Once a prefix has an error, every longer prefix has the same one.
proof fn lemma_id_error_prefix(items: Seq<WriteTodoPatch>, k: int)
    requires
        0 <= k <= items.len(),
        id_error(items.take(k)) is Some,
    ensures
        id_error(items) == id_error(items.take(k)),
    decreases items.len() - k,
{
    if k < items.len() {
        assert(items.take(k + 1).drop_last() =~= items.take(k));
        lemma_id_error_prefix_step(items.take(k + 1));
        lemma_id_error_prefix(items, k + 1);
    } else {
        assert(items.take(k) =~= items);
    }
}

proof fn lemma_id_error_prefix_step(items: Seq<WriteTodoPatch>)
    requires
        items.len() > 0,
        id_error(items.drop_last()) is Some,
    ensures
        id_error(items) == id_error(items.drop_last()),
{
}

/// The first field missing from a batch that replaces the whole list.
pub open spec fn missing_field(items: Seq<WriteTodoPatch>) -> Option<Seq<char>>
    decreases items.len(),
{
    if items.len() == 0 {
        None
    } else {
        match missing_field(items.drop_last()) {
            Some(e) => Some(e),
            None => {
                let t = items.last();
                if given(t.content) is None {
                    Some("invalid_request: todo content is required for merge=false"@)
                } else if given(t.status) is None {
                    Some("invalid_request: todo status is required for merge=false"@)
                } else if given(t.priority) is None {
                    Some("invalid_request: todo priority is required for merge=false"@)
                } else {
                    None
                }
            },
        }
    }
}

/// The todo a complete change describes.
pub open spec fn replacement(t: WriteTodoPatch) -> TodoView {
    TodoView {
        id: trim(t.id@),
        content: given(t.content).unwrap(),
        status: given(t.status).unwrap(),
        priority: given(t.priority).unwrap(),
        active_form: opt_str_view(t.active_form),
    }
}

fn given_field(f: &Option<String>) -> (r: Option<String>)
    ensures
        opt_str_view(r) == given(*f),
{
    match f {
        Some(s) => {
            proof {
                lemma_trim_blank(s@);
            }
            if str_is_blank(s.as_str()) {
                None
            } else {
                Some(str_trim(s.as_str()))
            }
        },
        None => None,
    }
}

/// The list a batch that replaces the whole list describes, or the first
/// missing field.
pub fn require_fields_for_replace(items: &[WriteTodoPatch]) -> (r: Result<Vec<TodoItem>, String>)
    ensures
        match (r, missing_field(items@)) {
            (Ok(v), None) => todos_view(v@) == items@.map_values(|t: WriteTodoPatch| replacement(t)),
            (Err(e), Some(m)) => e@ == m,
            _ => false,
        },
{
    let mut out: Vec<TodoItem> = Vec::new();
    let mut i: usize = 0;
    while i < items.len()
        invariant
            i <= items.len(),
            missing_field(items@.take(i as int)) is None,
            out.len() == i,
            forall|k: int| 0 <= k < i ==> #[trigger] todo_view(out@[k]) == replacement(items@[k]),
        decreases items.len() - i,
    {
        let t = &items[i];
        let ghost pre = items@.take(i as int + 1);
        assert(pre.drop_last() =~= items@.take(i as int));
        let content = given_field(&t.content);
        let status = given_field(&t.status);
        let priority = given_field(&t.priority);
        if content.is_none() || status.is_none() || priority.is_none() {
            proof {
                lemma_missing_field_prefix(items@, i as int + 1);
            }
            if content.is_none() {
                return Err(owned("invalid_request: todo content is required for merge=false"));
            }
            if status.is_none() {
                return Err(owned("invalid_request: todo status is required for merge=false"));
            }
            return Err(owned("invalid_request: todo priority is required for merge=false"));
        }
        out.push(
            TodoItem {
                id: str_trim(t.id.as_str()),
                content: content.unwrap(),
                status: status.unwrap(),
                priority: priority.unwrap(),
                active_form: clone_opt(&t.active_form),
            },
        );
        i = i + 1;
    }
    assert(items@.take(items.len() as int) =~= items@);
    assert(todos_view(out@) =~= items@.map_values(|t: WriteTodoPatch| replacement(t)));
    Ok(out)
}

proof fn lemma_missing_field_prefix(items: Seq<WriteTodoPatch>, k: int)
    requires
        0 <= k <= items.len(),
        missing_field(items.take(k)) is Some,
    ensures
        missing_field(items) == missing_field(items.take(k)),
    decreases items.len() - k,
{
    if k < items.len() {
        assert(items.take(k + 1).drop_last() =~= items.take(k));
        lemma_missing_field_prefix(items, k + 1);
    } else {
        assert(items.take(k) =~= items);
    }
}

/// The last position of a todo with id `id`.
pub open spec fn last_index(todos: Seq<TodoView>, id: Seq<char>) -> Option<int>
    decreases todos.len(),
{
    if todos.len() == 0 {
        None
    } else if todos.last().id == id {
        Some(todos.len() - 1)
    } else {
        last_index(todos.drop_last(), id)
    }
}

/// A todo after a change: each field given replaces the old one.
pub open spec fn updated(t: TodoView, p: WriteTodoPatch) -> TodoView {
    TodoView {
        id: t.id,
        content: match given(p.content) {
            Some(c) => c,
            None => t.content,
        },
        status: match given(p.status) {
            Some(c) => c,
            None => t.status,
        },
        priority: match given(p.priority) {
            Some(c) => c,
            None => t.priority,
        },
        active_form: match given(p.active_form) {
            Some(c) => Some(c),
            None => t.active_form,
        },
    }
}

/// A field trimmed, or empty when absent.
pub open spec fn trimmed_or_empty(f: Option<String>) -> Seq<char> {
    match f {
        Some(s) => trim(s@),
        None => Seq::empty(),
    }
}

/// The todo a change adds when its id is new.
pub open spec fn added(p: WriteTodoPatch) -> TodoView {
    TodoView {
        id: trim(p.id@),
        content: trimmed_or_empty(p.content),
        status: trimmed_or_empty(p.status),
        priority: trimmed_or_empty(p.priority),
        active_form: opt_str_view(p.active_form),
    }
}

/// The list after the first changes of a merge, and whether some todo
/// became completed; ids are looked up in the list as it was before.
pub open spec fn merged(orig: Seq<TodoView>, patches: Seq<WriteTodoPatch>) -> (Seq<TodoView>, bool)
    decreases patches.len(),
{
    if patches.len() == 0 {
        (orig, false)
    } else {
        let (cur, done) = merged(orig, patches.drop_last());
        let p = patches.last();
        match last_index(orig, trim(p.id@)) {
            Some(i) => {
                let before = cur[i];
                let after = updated(before, p);
                (cur.update(i, after), done || (before.status != "completed"@ && after.status == "completed"@))
            },
            None => (cur.push(added(p)), done || trimmed_or_empty(p.status) == "completed"@),
        }
    }
}

proof fn lemma_last_index(todos: Seq<TodoView>, id: Seq<char>)
    ensures
        last_index(todos, id) matches Some(i) ==> 0 <= i < todos.len() && todos[i].id == id,
        last_index(todos, id) is None ==> forall|k: int| 0 <= k < todos.len() ==> #[trigger] todos[k].id != id,
    decreases todos.len(),
{
    if todos.len() > 0 {
        lemma_last_index(todos.drop_last(), id);
        if todos.last().id != id {
            assert forall|k: int| 0 <= k < todos.len() - 1 implies #[trigger] todos[k].id == todos.drop_last()[k].id by {}
        }
    }
}

proof fn lemma_merged_len(orig: Seq<TodoView>, patches: Seq<WriteTodoPatch>)
    ensures
        merged(orig, patches).0.len() >= orig.len(),
    decreases patches.len(),
{
    if patches.len() > 0 {
        lemma_merged_len(orig, patches.drop_last());
        lemma_last_index(orig, trim(patches.last().id@));
    }
}

fn find_last(todos: &Vec<TodoItem>, n: usize, id: &str) -> (r: Option<usize>)
    requires
        n <= todos.len(),
    ensures
        r == match last_index(todos_view(todos@).take(n as int), id@) {
            Some(i) => Some(i as usize),
            None => None::<usize>,
        },
{
    let ghost tv = todos_view(todos@).take(n as int);
    assert(tv.take(n as int) =~= tv);
    let mut k: usize = n;
    while k > 0
        invariant
            k <= n <= todos.len(),
            tv == todos_view(todos@).take(n as int),
            last_index(tv, id@) == last_index(tv.take(k as int), id@),
        decreases k,
    {
        assert(tv.take(k as int).drop_last() =~= tv.take(k - 1));
        if str_eq(todos[k - 1].id.as_str(), id) {
            return Some(k - 1);
        }
        k = k - 1;
    }
    None
}

fn apply_patch(t: &TodoItem, p: &WriteTodoPatch) -> (r: TodoItem)
    ensures
        todo_view(r) == updated(todo_view(*t), *p),
{
    let content = match given_field(&p.content) {
        Some(c) => c,
        None => t.content.clone(),
    };
    let status = match given_field(&p.status) {
        Some(c) => c,
        None => t.status.clone(),
    };
    let priority = match given_field(&p.priority) {
        Some(c) => c,
        None => t.priority.clone(),
    };
    let active_form = match given_field(&p.active_form) {
        Some(c) => Some(c),
        None => clone_opt(&t.active_form),
    };
    TodoItem { id: t.id.clone(), content, status, priority, active_form }
}

fn trimmed_field(f: &Option<String>) -> (r: String)
    ensures
        r@ == trimmed_or_empty(*f),
{
    match f {
        Some(s) => str_trim(s.as_str()),
        None => String::new(),
    }
}

/// Applies a merge: changes to known ids update those todos field by field,
/// changes with new ids add todos. Returns whether some todo became
/// completed.
pub fn apply_merge(todos: &mut Vec<TodoItem>, items: &[WriteTodoPatch]) -> (r: bool)
    ensures
        (todos_view(final(todos)@), r) == merged(todos_view(old(todos)@), items@),
{
    let ghost orig = todos_view(todos@);
    let n = todos.len();
    let mut done = false;
    let mut i: usize = 0;
    while i < items.len()
        invariant
            i <= items.len(),
            n == orig.len(),
            n <= todos.len(),
            (todos_view(todos@), done) == merged(orig, items@.take(i as int)),
            forall|k: int| 0 <= k < n ==> #[trigger] todos_view(todos@)[k].id == orig[k].id,
        decreases items.len() - i,
    {
        let p = &items[i];
        assert(items@.take(i as int + 1).drop_last() =~= items@.take(i as int));
        let id = str_trim(p.id.as_str());
        let ghost cur = todos_view(todos@);
        let found = find_last(todos, n, id.as_str());
        proof {
            assert forall|k: int| 0 <= k < n implies #[trigger] cur.take(n as int)[k].id == orig[k].id by {}
            lemma_last_index_same_ids(cur.take(n as int), orig, id@);
            lemma_last_index(orig, id@);
        }
        match found {
            Some(k) => {
                let before_completed = str_eq(todos[k].status.as_str(), "completed");
                let t = apply_patch(&todos[k], p);
                let after_completed = str_eq(t.status.as_str(), "completed");
                let ghost tv = todo_view(t);
                todos.set(k, t);
                assert(todos_view(todos@) =~= cur.update(k as int, tv));
                if !before_completed && after_completed {
                    done = true;
                }
            },
            None => {
                let status = trimmed_field(&p.status);
                let after_completed = str_eq(status.as_str(), "completed");
                let t = TodoItem {
                    id,
                    content: trimmed_field(&p.content),
                    status,
                    priority: trimmed_field(&p.priority),
                    active_form: clone_opt(&p.active_form),
                };
                let ghost tv = todo_view(t);
                todos.push(t);
                assert(todos_view(todos@) =~= cur.push(tv));
                if after_completed {
                    done = true;
                }
            },
        }
        i = i + 1;
    }
    assert(items@.take(items.len() as int) =~= items@);
    done
}

proof fn lemma_last_index_same_ids(a: Seq<TodoView>, b: Seq<TodoView>, id: Seq<char>)
    requires
        a.len() == b.len(),
        forall|k: int| 0 <= k < a.len() ==> #[trigger] a[k].id == b[k].id,
    ensures
        last_index(a, id) == last_index(b, id),
    decreases a.len(),
{
    if a.len() > 0 {
        assert(a.last().id == b.last().id);
        lemma_last_index_same_ids(a.drop_last(), b.drop_last(), id);
    }
}

/// The status a todo id had before a replacement: that of its last todo,
/// `pending` when it had none.
pub open spec fn prior_status(before: Seq<TodoView>, id: Seq<char>) -> Seq<char> {
    match last_index(before, id) {
        Some(i) => before[i].status,
        None => "pending"@,
    }
}

/// Some todo of the new list is completed and was not before.
pub open spec fn replace_completes(before: Seq<TodoView>, next: Seq<TodoView>) -> bool {
    exists|k: int| 0 <= k < next.len() && #[trigger] next[k].status == "completed"@ && prior_status(before, next[k].id) != "completed"@
}

/// The key under which an accepted summary is kept in the extras.
pub open spec fn summary_key() -> Seq<char> {
    "_todo_summary"@
}

/// What a `write_todos` call does to a todo list: the new list and the
/// summary to record, or the error that refuses the call.
pub open spec fn write_todos_outcome(before: Seq<TodoView>, input: WriteTodosInput) -> Result<(Seq<TodoView>, Option<Seq<char>>), Seq<char>> {
    match id_error(input.todos@) {
        Some(e) => Err(e),
        None => {
            let staged: Result<(Seq<TodoView>, bool), Seq<char>> = if input.merge {
                Ok(merged(before, input.todos@))
            } else {
                match missing_field(input.todos@) {
                    Some(e) => Err(e),
                    None => {
                        let next = input.todos@.map_values(|t: WriteTodoPatch| replacement(t));
                        Ok((next, replace_completes(before, next)))
                    },
                }
            };
            match staged {
                Err(e) => Err(e),
                Ok((next, completes)) => match given(input.summary) {
                    Some(s) => if completes {
                        Ok((next, Some(s)))
                    } else {
                        Err("invalid_request: summary is only allowed when a todo transitions to completed"@)
                    },
                    None => Ok((next, None)),
                },
            }
        },
    }
}

fn replace_transition(before: &Vec<TodoItem>, next: &Vec<TodoItem>) -> (r: bool)
    ensures
        r == replace_completes(todos_view(before@), todos_view(next@)),
{
    let ghost bv = todos_view(before@);
    let ghost nv = todos_view(next@);
    let mut k: usize = 0;
    while k < next.len()
        invariant
            k <= next.len(),
            bv == todos_view(before@),
            nv == todos_view(next@),
            forall|j: int| 0 <= j < k ==> !(#[trigger] nv[j].status == "completed"@ && prior_status(bv, nv[j].id) != "completed"@),
        decreases next.len() - k,
    {
        let t = &next[k];
        let found = find_last(before, before.len(), t.id.as_str());
        proof {
            assert(bv.take(before.len() as int) =~= bv);
            lemma_last_index(bv, t.id@);
        }
        let prior_completed = match found {
            Some(i) => str_eq(before[i].status.as_str(), "completed"),
            None => false,
        };
        proof {
            reveal_strlit("pending");
            reveal_strlit("completed");
            assert("pending"@ != "completed"@) by {
                assert("pending"@[0] != "completed"@[0]);
            }
            assert(prior_completed == (prior_status(bv, nv[k as int].id) == "completed"@));
        }
        if !prior_completed && str_eq(t.status.as_str(), "completed") {
            assert(nv[k as int].status == "completed"@ && prior_status(bv, nv[k as int].id) != "completed"@);
            return true;
        }
        k = k + 1;
    }
    false
}

/// Runs a `write_todos` call on the state. Either the whole call applies
/// or, on an error, the state is left exactly as it was.
pub fn apply_write_todos(state: &mut AgentState, input: &WriteTodosInput) -> (r: Result<(), String>)
    ensures
        final(state).filesystem == old(state).filesystem,
        final(state).private == old(state).private,
        match (r, write_todos_outcome(todos_view(old(state).todos@), *input)) {
            (Ok(()), Ok((next, summary))) => {
                &&& todos_view(final(state).todos@) == next
                &&& match summary {
                    None => final(state).extra.map() == old(state).extra.map(),
                    Some(s) => {
                        &&& final(state).extra.map().remove(summary_key()) == old(state).extra.map().remove(summary_key())
                        &&& final(state).extra.map().dom().contains(summary_key())
                        &&& json_str_of(final(state).extra.map()[summary_key()]) == s
                        &&& json_kind_of(final(state).extra.map()[summary_key()]) == JsonKind::String
                    },
                }
            },
            (Err(e), Err(m)) => {
                &&& e@ == m
                &&& final(state).todos == old(state).todos
                &&& final(state).extra == old(state).extra
            },
            _ => false,
        },
{
    let ghost before = todos_view(state.todos@);
    validate_no_duplicate_ids(input.todos.as_slice())?;
    let mut next = clone_todos(&state.todos);
    let completes = if input.merge {
        apply_merge(&mut next, input.todos.as_slice())
    } else {
        let replaced = require_fields_for_replace(input.todos.as_slice())?;
        let c = replace_transition(&state.todos, &replaced);
        next = replaced;
        c
    };
    let summary = given_field(&input.summary);
    match summary {
        Some(s) => {
            if !completes {
                return Err(owned("invalid_request: summary is only allowed when a todo transitions to completed"));
            }
            state.todos = next;
            let ghost prev = state.extra.map();
            state.extra.insert(owned("_todo_summary"), json_from_str(s.as_str()));
            assert(state.extra.map().remove(summary_key()) =~= prev.remove(summary_key()));
        },
        None => {
            state.todos = next;
        },
    }
    Ok(())
}

/// Counts one more event under `key` in the extras (saturating; a missing
/// or non-numeric value counts as 0).
pub fn bump(state: &mut AgentState, key: &str)
    ensures
        final(state).filesystem == old(state).filesystem,
        final(state).todos == old(state).todos,
        final(state).private == old(state).private,
        final(state).extra.map().remove(key@) == old(state).extra.map().remove(key@),
        final(state).extra.map().dom().contains(key@),
        json_u64_of(final(state).extra.map()[key@]) == Some(counter_after(old(state).extra.map(), key@)),
{
    let current = match state.extra.get(key) {
        Some(v) => match json_as_u64(v) {
            Some(n) => n,
            None => 0,
        },
        None => 0,
    };
    let next = current.saturating_add(1);
    let ghost prev = state.extra.map();
    state.extra.insert(owned(key), json_from_u64(next));
    assert(state.extra.map().remove(key@) =~= prev.remove(key@));
}

/// The count after one more event under `key`.
pub open spec fn counter_after(extra: Map<Seq<char>, serde_json::Value>, key: Seq<char>) -> u64 {
    let current: u64 = if extra.dom().contains(key) {
        match json_u64_of(extra[key]) {
            Some(n) => n,
            None => 0,
        }
    } else {
        0
    };
    if current == u64::MAX {
        u64::MAX
    } else {
        (current + 1) as u64
    }
}

} // verus!
