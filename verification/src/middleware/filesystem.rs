//! The filesystem middleware: after a file tool succeeds, the file's new
//! record (or its deletion) is folded into the agent's virtual filesystem.
use vstd::prelude::*;

use crate::json::{JsonKind, json_field, json_field_of, json_get_str, json_kind, json_kind_of, json_str_field, opt_view_str};
use crate::middleware::protocol::ToolExecution;
use crate::state::{DefaultFilesystemReducer, FileDelta, FileRecord, FilesystemDelta, FilesystemState, StateReducer};
use crate::text::{lines, lines_of, owned, str_eq};

verus! {

/// What a file tool did to a file.
#[derive(Debug, Clone, Copy, PartialEq, Eq, Structural)]
pub enum FileAction {
    /// The file was written or edited.
    Upsert,
    /// The file was deleted.
    Delete,
}

/// The tool output reports no error: no `error` field, or a `null` one.
pub open spec fn output_ok(output: serde_json::Value) -> bool {
    match json_field_of(output, "error"@) {
        None => true,
        Some(e) => json_kind_of(e) == JsonKind::Null,
    }
}

/// The file change a tool run made, if any: a successful `write_file` or
/// `edit_file` upserts, a successful `delete_file` deletes, the file being
/// the output's `path`, else the input's `file_path`.
pub open spec fn file_change_of(t: ToolExecution) -> Option<(FileAction, Seq<char>)> {
    let action = if t.tool_name@ == "write_file"@ || t.tool_name@ == "edit_file"@ {
        Some(FileAction::Upsert)
    } else if t.tool_name@ == "delete_file"@ {
        Some(FileAction::Delete)
    } else {
        None
    };
    match (t.error, t.output, action) {
        (None, Some(out), Some(a)) => if output_ok(out) {
            let path = match json_str_field(out, "path"@) {
                Some(p) => Some(p),
                None => json_str_field(t.input, "file_path"@),
            };
            match path {
                Some(p) => Some((a, p)),
                None => None,
            }
        } else {
            None
        },
        _ => None,
    }
}

/// The file change a tool run made.
pub fn file_change(t: &ToolExecution) -> (r: Option<(FileAction, String)>)
    ensures
        match r {
            Some((a, p)) => file_change_of(*t) == Some((a, p@)),
            None => file_change_of(*t) is None,
        },
{
    if t.error.is_some() {
        return None;
    }
    let out = match &t.output {
        Some(o) => o,
        None => return None,
    };
    let name = t.tool_name.as_str();
    let action = if str_eq(name, "write_file") || str_eq(name, "edit_file") {
        FileAction::Upsert
    } else if str_eq(name, "delete_file") {
        FileAction::Delete
    } else {
        return None;
    };
    let ok = match json_field(out, "error") {
        None => true,
        Some(e) => json_kind(&e) == JsonKind::Null,
    };
    if !ok {
        return None;
    }
    let path = match json_get_str(out, "path") {
        Some(p) => Some(p),
        None => json_get_str(&t.input, "file_path"),
    };
    match path {
        Some(p) => Some((action, p)),
        None => None,
    }
}

/// What follows the first `c` of a line, if it has one
/// (`str::split_once`).
pub open spec fn after_first(l: Seq<char>, c: char) -> Option<Seq<char>>
    decreases l.len(),
{
    if l.len() == 0 {
        None
    } else if l[0] == c {
        Some(l.drop_first())
    } else {
        after_first(l.drop_first(), c)
    }
}

/// The contents of numbered lines (` 12→text`): the text after the first
/// arrow of each line that has one.
pub open spec fn numbered_contents(ls: Seq<Seq<char>>) -> Seq<Seq<char>>
    decreases ls.len(),
{
    if ls.len() == 0 {
        Seq::empty()
    } else {
        let r = numbered_contents(ls.drop_last());
        match after_first(ls.last(), '→') {
            Some(t) => r.push(t),
            None => r,
        }
    }
}

fn split_after_arrow(l: &str) -> (r: Option<String>)
    ensures
        opt_view_str(r) == after_first(l@, '→'),
{
    let cs = crate::text::to_chars(l);
    assert(l@.skip(0) =~= l@);
    let mut i: usize = 0;
    while i < cs.len()
        invariant
            i <= cs.len(),
            cs@ == l@,
            after_first(l@, '→') == after_first(l@.skip(i as int), '→'),
        decreases cs.len() - i,
    {
        let ghost t = l@.skip(i as int);
        assert(t[0] == cs@[i as int]);
        assert(t.drop_first() =~= l@.skip(i as int + 1));
        if cs[i] == '→' {
            let rest = crate::text::slice_range(&cs, i + 1, cs.len());
            assert(rest@ =~= t.drop_first());
            return Some(crate::text::from_chars(&rest));
        }
        i = i + 1;
    }
    assert(l@.skip(i as int).len() == 0);
    None
}

/// Reads back the numbered lines a backend gives for a file: their
/// contents, at most `max_lines` of them, and whether there were more.
pub fn parse_read_lines(raw: &str, max_lines: usize) -> (r: (Vec<String>, bool))
    ensures
        ({
            let all = numbered_contents(lines_of(raw@));
            &&& r.1 == (all.len() > max_lines)
            &&& r.0@.map_values(|s: String| s@) == if r.1 {
                all.take(max_lines as int)
            } else {
                all
            }
        }),
{
    let ls = lines(raw);
    let ghost lv = ls@.map_values(|s: String| s@);
    let mut out: Vec<String> = Vec::new();
    let mut i: usize = 0;
    while i < ls.len()
        invariant
            i <= ls.len(),
            lv == ls@.map_values(|s: String| s@),
            lv == lines_of(raw@),
            out@.map_values(|s: String| s@) == numbered_contents(lv.take(i as int)),
        decreases ls.len() - i,
    {
        proof {
            assert(lv.take(i as int + 1).drop_last() =~= lv.take(i as int));
            assert(lv.take(i as int + 1).last() == ls@[i as int]@);
        }
        let ghost prev = out@.map_values(|s: String| s@);
        match split_after_arrow(ls[i].as_str()) {
            Some(t) => {
                out.push(t);
                assert(out@.map_values(|s: String| s@) =~= prev.push(after_first(lv[i as int], '→')->0));
            },
            None => {},
        }
        i = i + 1;
    }
    assert(lv.take(i as int) =~= lv);
    let truncated = out.len() > max_lines;
    if truncated {
        let ghost all = out@.map_values(|s: String| s@);
        out.truncate(max_lines);
        assert(out@.map_values(|s: String| s@) =~= all.take(max_lines as int));
    }
    (out, truncated)
}

/// The change a file action makes, at time `now`: an upsert carries the
/// file's lines; a deletion carries an empty deleted record.
pub fn file_delta(action: FileAction, path: String, content: Vec<String>, truncated: bool, now: String) -> (r: FilesystemDelta)
    ensures
        r.files.map().dom() == set![path@],
        ({
            let d = r.files.map()[path@];
            &&& d.delete == (action == FileAction::Delete)
            &&& d.upsert matches Some(rec) && {
                &&& rec.created_at is None
                &&& rec.modified_at == Some(now)
                &&& rec.deleted == (action == FileAction::Delete)
                &&& if action == FileAction::Delete {
                    rec.content@.len() == 0 && !rec.truncated
                } else {
                    rec.content == content && rec.truncated == truncated
                }
            }
        }),
{
    let record = match action {
        FileAction::Upsert => FileRecord { content, created_at: None, modified_at: Some(now), deleted: false, truncated },
        FileAction::Delete => FileRecord {
            content: Vec::new(),
            created_at: None,
            modified_at: Some(now),
            deleted: true,
            truncated: false,
        },
    };
    let mut delta = FilesystemDelta::new();
    let ghost p = path@;
    delta.files.insert(path, FileDelta { upsert: Some(record), delete: action == FileAction::Delete });
    assert(delta.files.map().dom() =~= set![p]);
    delta
}

/// Folds tool outcomes on files into the agent's virtual filesystem.
#[derive(Debug, Clone)]
pub struct FilesystemMiddleware<R> {
    pub reducer: R,
    pub max_lines: usize,
}

impl FilesystemMiddleware<DefaultFilesystemReducer> {
    /// The default reducer, files read up to 2000 lines.
    pub fn new() -> (r: Self)
        ensures
            r.max_lines == 2000,
    {
        FilesystemMiddleware { reducer: DefaultFilesystemReducer, max_lines: 2000 }
    }
}

impl<R> FilesystemMiddleware<R> {
    /// Sets how many lines of a file are read back, at least one.
    pub fn with_max_lines(self, max_lines: usize) -> (r: Self)
        ensures
            r.max_lines == if max_lines < 1 {
                1
            } else {
                max_lines
            },
            r.reducer == self.reducer,
    {
        FilesystemMiddleware {
            reducer: self.reducer,
            max_lines: if max_lines < 1 {
                1
            } else {
                max_lines
            },
        }
    }

    /// Replaces the reducer that folds changes into the state.
    pub fn with_reducer<R2>(self, reducer: R2) -> (r: FilesystemMiddleware<R2>)
        ensures
            r.reducer == reducer,
            r.max_lines == self.max_lines,
    {
        FilesystemMiddleware { reducer, max_lines: self.max_lines }
    }
}

impl<R: StateReducer<FilesystemState, FilesystemDelta>> FilesystemMiddleware<R> {
    /// Folds a change into the filesystem state with the reducer: the new
    /// state is the one the reducer makes of the old state and the change.
    pub fn apply(&self, state: &mut FilesystemState, delta: FilesystemDelta)
        ensures
            self.reducer.reduces_to(*old(state), delta, *final(state)),
    {
        self.reducer.reduce(state, delta);
    }
}

} // verus!
