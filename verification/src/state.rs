//! The agent state: a virtual filesystem, the todo list, open-ended extras
//! and state private to the runtime.
use vstd::prelude::*;

use crate::memory::protocol::clone_strings;
use crate::str_map::StrMap;
use crate::types::{clone_opt, opt_str_view};

verus! {

/// One file of the virtual filesystem.
#[derive(Debug)]
pub struct FileRecord {
    /// The lines of the file.
    pub content: Vec<String>,
    pub created_at: Option<String>,
    pub modified_at: Option<String>,
    pub deleted: bool,
    pub truncated: bool,
}

/// A file record as values.
pub struct FileRecordView {
    pub content: Seq<Seq<char>>,
    pub created_at: Option<Seq<char>>,
    pub modified_at: Option<Seq<char>>,
    pub deleted: bool,
    pub truncated: bool,
}

impl View for FileRecord {
    type V = FileRecordView;

    open spec fn view(&self) -> FileRecordView {
        FileRecordView {
            content: self.content@.map_values(|s: String| s@),
            created_at: opt_str_view(self.created_at),
            modified_at: opt_str_view(self.modified_at),
            deleted: self.deleted,
            truncated: self.truncated,
        }
    }
}

impl Clone for FileRecord {
    fn clone(&self) -> (r: Self)
        ensures
            r@ == self@,
    {
        FileRecord {
            content: clone_strings(&self.content),
            created_at: clone_opt(&self.created_at),
            modified_at: clone_opt(&self.modified_at),
            deleted: self.deleted,
            truncated: self.truncated,
        }
    }
}

/// The files of the virtual filesystem, by path.
#[derive(Debug)]
pub struct FilesystemState {
    pub files: StrMap<FileRecord>,
}

/// The record of `path` in a map of files, as values.
pub open spec fn record_at(files: Map<Seq<char>, FileRecord>, path: Seq<char>) -> Option<FileRecordView> {
    if files.dom().contains(path) {
        Some(files[path]@)
    } else {
        None
    }
}

impl FilesystemState {
    /// An empty filesystem.
    pub fn new() -> (r: Self)
        ensures
            r.files.map() == Map::<Seq<char>, FileRecord>::empty(),
    {
        FilesystemState { files: StrMap::new() }
    }

    /// A copy with the same files.
    pub fn duplicate(&self) -> (r: Self)
        ensures
            forall|p: Seq<char>| record_at(r.files.map(), p) == record_at(self.files.map(), p),
    {
        let mut files: StrMap<FileRecord> = StrMap::new();
        let n = self.files.len();
        let mut i: usize = 0;
        while i < n
            invariant
                i <= n,
                n == self.files.keys().len(),
                forall|p: Seq<char>| #[trigger] record_at(files.map(), p) == if self.files.keys().take(i as int).contains(p) {
                    record_at(self.files.map(), p)
                } else {
                    None
                },
            decreases n - i,
        {
            let (k, v) = self.files.entry_at(i);
            let ghost kv = k@;
            let ghost prev = files.map();
            files.insert(k.clone(), v.clone());
            proof {
                assert forall|p: Seq<char>| #[trigger] record_at(files.map(), p) == if self.files.keys().take(i + 1).contains(p) {
                    record_at(self.files.map(), p)
                } else {
                    None
                } by {
                    if p == kv {
                        assert(self.files.keys().take(i + 1)[i as int] == kv);
                    } else {
                        assert(record_at(prev, p) == if self.files.keys().take(i as int).contains(p) {
                            record_at(self.files.map(), p)
                        } else {
                            None
                        });
                        assert(record_at(files.map(), p) == record_at(prev, p));
                        let t1 = self.files.keys().take(i + 1);
                        let t0 = self.files.keys().take(i as int);
                        if t1.contains(p) {
                            let j = choose|j: int| 0 <= j < t1.len() && t1[j] == p;
                            assert(t0[j] == p);
                        }
                        if t0.contains(p) {
                            let j = choose|j: int| 0 <= j < t0.len() && t0[j] == p;
                            assert(t1[j] == p);
                        }
                    }
                }
            }
            i = i + 1;
        }
        proof {
            assert(self.files.keys().take(n as int) =~= self.files.keys());
            assert forall|p: Seq<char>| record_at(files.map(), p) == record_at(self.files.map(), p) by {
                assert(record_at(files.map(), p) == if self.files.keys().take(n as int).contains(p) {
                    record_at(self.files.map(), p)
                } else {
                    None
                });
            }
        }
        FilesystemState { files }
    }
}

/// A change to one file.
#[derive(Debug)]
pub struct FileDelta {
    /// The new record, when there is one.
    pub upsert: Option<FileRecord>,
    /// The file is deleted.
    pub delete: bool,
}

/// Changes to files, by path.
#[derive(Debug)]
pub struct FilesystemDelta {
    pub files: StrMap<FileDelta>,
}

impl FilesystemDelta {
    /// No change.
    pub fn new() -> (r: Self)
        ensures
            r.files.map() == Map::<Seq<char>, FileDelta>::empty(),
    {
        FilesystemDelta { files: StrMap::new() }
    }
}

/// The record a deletion leaves: the timestamps stay, the lines go.
pub open spec fn deleted_record(old: Option<FileRecordView>) -> FileRecordView {
    match old {
        Some(r) => FileRecordView { content: Seq::empty(), deleted: true, truncated: false, ..r },
        None => FileRecordView {
            content: Seq::empty(),
            created_at: None,
            modified_at: None,
            deleted: true,
            truncated: false,
        },
    }
}

/// What becomes of a file's record under a change: a deletion puts the
/// record it carries, or a deleted record, in place; an upsert puts its
/// record in place; otherwise the file is left as it is.
pub open spec fn file_after(old: Option<FileRecordView>, d: Option<FileDelta>) -> Option<FileRecordView> {
    match d {
        None => old,
        Some(d) => if d.delete {
            match d.upsert {
                Some(u) => Some(u@),
                None => Some(deleted_record(old)),
            }
        } else {
            match d.upsert {
                Some(u) => Some(u@),
                None => old,
            }
        },
    }
}

/// A change at `path` of a map of changes, if there is one.
pub open spec fn delta_at(files: Map<Seq<char>, FileDelta>, path: Seq<char>) -> Option<FileDelta> {
    if files.dom().contains(path) {
        Some(files[path])
    } else {
        None
    }
}

/// Applies a change of type `D` to a state of type `S`.
pub trait StateReducer<S, D> {
    /// `after` is the state `reduce` leaves when it applies `delta` to
    /// `before`.
    spec fn reduces_to(&self, before: S, delta: D, after: S) -> bool;

    fn reduce(&self, state: &mut S, delta: D)
        ensures
            self.reduces_to(*old(state), delta, *final(state)),
    ;
}

/// Applies filesystem changes file by file.
#[derive(Debug, Clone, Default)]
pub struct DefaultFilesystemReducer;

impl StateReducer<FilesystemState, FilesystemDelta> for DefaultFilesystemReducer {
    /// Each delta path is folded into its record; every other path keeps
    /// its record.
    open spec fn reduces_to(&self, before: FilesystemState, delta: FilesystemDelta, after: FilesystemState) -> bool {
        forall|p: Seq<char>| #[trigger] record_at(after.files.map(), p)
            == file_after(record_at(before.files.map(), p), delta_at(delta.files.map(), p))
    }

    fn reduce(&self, state: &mut FilesystemState, delta: FilesystemDelta)
        ensures
            forall|p: Seq<char>| #[trigger] record_at(final(state).files.map(), p)
                == file_after(record_at(old(state).files.map(), p), delta_at(delta.files.map(), p)),
    {
        let ghost old_files = state.files.map();
        let ghost dk = delta.files.keys();
        let n = delta.files.len();
        let mut i: usize = 0;
        while i < n
            invariant
                i <= n,
                n == dk.len(),
                dk == delta.files.keys(),
                forall|p: Seq<char>| #[trigger] record_at(state.files.map(), p) == if dk.take(i as int).contains(p) {
                    file_after(record_at(old_files, p), delta_at(delta.files.map(), p))
                } else {
                    record_at(old_files, p)
                },
            decreases n - i,
        {
            let (path, d) = delta.files.entry_at(i);
            let ghost pv = path@;
            assert(record_at(state.files.map(), pv) == record_at(old_files, pv)) by {
                let t0 = dk.take(i as int);
                if t0.contains(pv) {
                    let j = choose|j: int| 0 <= j < t0.len() && t0[j] == pv;
                    assert(dk[j] == pv);
                }
            }
            let ghost prev = state.files.map();
            if d.delete {
                match &d.upsert {
                    Some(u) => {
                        state.files.insert(path.clone(), u.clone());
                    },
                    None => {
                        let rec = match state.files.get(path.as_str()) {
                            Some(r) => FileRecord {
                                content: Vec::new(),
                                created_at: clone_opt(&r.created_at),
                                modified_at: clone_opt(&r.modified_at),
                                deleted: true,
                                truncated: false,
                            },
                            None => FileRecord {
                                content: Vec::new(),
                                created_at: None,
                                modified_at: None,
                                deleted: true,
                                truncated: false,
                            },
                        };
                        assert(rec@.content =~= Seq::<Seq<char>>::empty());
                        state.files.insert(path.clone(), rec);
                    },
                }
            } else {
                if let Some(u) = &d.upsert {
                    state.files.insert(path.clone(), u.clone());
                }
            }
            proof {
                assert forall|p: Seq<char>| #[trigger] record_at(state.files.map(), p) == if dk.take(i + 1).contains(p) {
                    file_after(record_at(old_files, p), delta_at(delta.files.map(), p))
                } else {
                    record_at(old_files, p)
                } by {
                    if p == pv {
                        assert(dk.take(i + 1)[i as int] == pv);
                    } else {
                        assert(record_at(prev, p) == if dk.take(i as int).contains(p) {
                            file_after(record_at(old_files, p), delta_at(delta.files.map(), p))
                        } else {
                            record_at(old_files, p)
                        });
                        assert(record_at(state.files.map(), p) == record_at(prev, p));
                        let t1 = dk.take(i + 1);
                        let t0 = dk.take(i as int);
                        if t1.contains(p) {
                            let j = choose|j: int| 0 <= j < t1.len() && t1[j] == p;
                            assert(t0[j] == p);
                        }
                        if t0.contains(p) {
                            let j = choose|j: int| 0 <= j < t0.len() && t0[j] == p;
                            assert(t1[j] == p);
                        }
                    }
                }
            }
            i = i + 1;
        }
        proof {
            assert(dk.take(n as int) =~= dk);
            assert forall|p: Seq<char>| #[trigger] record_at(state.files.map(), p)
                == file_after(record_at(old_files, p), delta_at(delta.files.map(), p)) by {
                if !dk.contains(p) {
                    assert(!delta.files.map().dom().contains(p));
                }
            }
        }
    }
}

/// One todo of the agent's list.
#[derive(Debug)]
pub struct TodoItem {
    pub id: String,
    pub content: String,
    pub status: String,
    pub priority: String,
    pub active_form: Option<String>,
}

impl Clone for TodoItem {
    fn clone(&self) -> (r: Self)
        ensures
            r == *self,
    {
        TodoItem {
            id: self.id.clone(),
            content: self.content.clone(),
            status: self.status.clone(),
            priority: self.priority.clone(),
            active_form: clone_opt(&self.active_form),
        }
    }
}

pub fn clone_todos(v: &Vec<TodoItem>) -> (r: Vec<TodoItem>)
    ensures
        r@ == v@,
{
    let mut out: Vec<TodoItem> = Vec::new();
    for i in 0..v.len()
        invariant
            out@ == v@.take(i as int),
    {
        out.push(v[i].clone());
        assert(v@.take(i as int).push(v@[i as int]) =~= v@.take(i as int + 1));
    }
    assert(v@.take(v@.len() as int) =~= v@);
    out
}

/// State kept by the runtime for itself and never handed to a sub-agent.
#[derive(Debug)]
pub struct AgentPrivateState {
    pub memory_loaded: bool,
    /// The memory files read, by path.
    pub memory_contents: Option<StrMap<String>>,
}

impl AgentPrivateState {
    /// Nothing loaded.
    pub fn new() -> (r: Self)
        ensures
            !r.memory_loaded,
            r.memory_contents is None,
    {
        AgentPrivateState { memory_loaded: false, memory_contents: None }
    }
}

/// Everything an agent run carries besides its messages.
#[derive(Debug)]
pub struct AgentState {
    pub filesystem: FilesystemState,
    pub todos: Vec<TodoItem>,
    /// Open-ended values by key, such as counters and diagnostics.
    pub extra: StrMap<serde_json::Value>,
    pub private: AgentPrivateState,
}

impl AgentState {
    /// An empty state.
    pub fn new() -> (r: Self)
        ensures
            r.filesystem.files.map() == Map::<Seq<char>, FileRecord>::empty(),
            r.todos@ == Seq::<TodoItem>::empty(),
            r.extra.map() == Map::<Seq<char>, serde_json::Value>::empty(),
            !r.private.memory_loaded,
            r.private.memory_contents is None,
    {
        AgentState {
            filesystem: FilesystemState::new(),
            todos: Vec::new(),
            extra: StrMap::new(),
            private: AgentPrivateState::new(),
        }
    }
}

} // verus!
