//! Reading tool failures into a code and a message, and checking the
//! arguments of file and command tools before they run.
use vstd::prelude::*;

use crate::json::{JsonKind, json_get_str, json_kind, json_kind_of, json_str_field};
use crate::skills::registry::{find_char, first_index_of};
use crate::text::{
    from_chars, owned, slice_range, starts_with, str_eq, str_is_blank, str_starts_with, str_trim, to_chars, trim,
};

verus! {

/// The text before and after the first `c`, if there is one
/// (`str::split_once`).
pub open spec fn split_once(s: Seq<char>, c: char) -> Option<(Seq<char>, Seq<char>)> {
    match first_index_of(s, c) {
        Some(i) => Some((s.take(i), s.skip(i + 1))),
        None => None,
    }
}

/// A code: after trimming, not empty and only lowercase ASCII letters,
/// digits, `_` and `-`.
pub open spec fn is_code(c: Seq<char>) -> bool {
    let t = trim(c);
    t.len() > 0 && forall|i: int| 0 <= i < t.len() ==> is_code_char(#[trigger] t[i])
}

pub open spec fn is_code_char(ch: char) -> bool {
    ('a' <= ch && ch <= 'z') || ('0' <= ch && ch <= '9') || ch == '_' || ch == '-'
}

/// The code and message of a tool's error text: `command_not_allowed: `
/// errors carry their own code before a further colon; otherwise a leading
/// code before the first colon is used, and `unknown` where there is none.
pub open spec fn tool_error_parts(s: Seq<char>) -> (Seq<char>, Seq<char>) {
    let prefix = "command_not_allowed: "@;
    if starts_with(s, prefix) {
        let rest = s.skip(prefix.len() as int);
        match split_once(rest, ':') {
            Some((code, reason)) => (trim(code), trim(reason)),
            None => ("command_not_allowed"@, trim(rest)),
        }
    } else {
        match split_once(s, ':') {
            Some((code, rest)) => if is_code(code) {
                (trim(code), trim(rest))
            } else {
                ("unknown"@, s)
            },
            None => ("unknown"@, s),
        }
    }
}

/// Splits text at its first `c`.
fn split_once_exec(cs: &Vec<char>, c: char) -> (r: Option<(Vec<char>, Vec<char>)>)
    ensures
        match r {
            Some((a, b)) => split_once(cs@, c) == Some((a@, b@)),
            None => split_once(cs@, c) is None,
        },
{
    match find_char(cs, c) {
        Some(i) => {
            proof {
                let s = cs@;
                let w = choose|j: int| 0 <= j < s.len() && s[j] == c && forall|k: int| 0 <= k < j ==> s[k] != c;
                assert(w == i as int) by {
                    if w < i {
                        assert(s[w] != c);
                    } else if w > i {
                        assert(s[i as int] != c);
                    }
                }
            }
            assert(i < cs.len());
            let head = slice_range(cs, 0, i);
            let tail = slice_range(cs, i + 1, cs.len());
            assert(head@ =~= cs@.take(i as int));
            assert(tail@ =~= cs@.skip(i + 1));
            Some((head, tail))
        },
        None => None,
    }
}

fn trimmed(cs: &Vec<char>) -> (r: String)
    ensures
        r@ == trim(cs@),
{
    let s = from_chars(cs);
    str_trim(s.as_str())
}

fn code_like(cs: &Vec<char>) -> (r: bool)
    ensures
        r == is_code(cs@),
{
    let t = to_chars(trimmed(cs).as_str());
    if t.len() == 0 {
        return false;
    }
    let mut i: usize = 0;
    while i < t.len()
        invariant
            i <= t.len(),
            t@ == trim(cs@),
            forall|k: int| 0 <= k < i ==> is_code_char(#[trigger] t@[k]),
        decreases t.len() - i,
    {
        let ch = t[i];
        if !(('a' <= ch && ch <= 'z') || ('0' <= ch && ch <= '9') || ch == '_' || ch == '-') {
            return false;
        }
        i = i + 1;
    }
    true
}

/// The code and message of a tool's error text.
pub fn parse_tool_error_string(s: &str) -> (r: (String, String))
    ensures
        (r.0@, r.1@) == tool_error_parts(s@),
{
    let cs = to_chars(s);
    let prefix = to_chars("command_not_allowed: ");
    if str_starts_with(s, "command_not_allowed: ") {
        proof {
            reveal_strlit("command_not_allowed: ");
        }
        let rest = slice_range(&cs, prefix.len(), cs.len());
        assert(rest@ =~= s@.skip(prefix@.len() as int));
        return match split_once_exec(&rest, ':') {
            Some((code, reason)) => (trimmed(&code), trimmed(&reason)),
            None => (owned("command_not_allowed"), trimmed(&rest)),
        };
    }
    match split_once_exec(&cs, ':') {
        Some((code, rest)) => {
            if code_like(&code) {
                (trimmed(&code), trimmed(&rest))
            } else {
                (owned("unknown"), owned(s))
            }
        },
        None => (owned("unknown"), owned(s)),
    }
}

/// The string fields a file or command tool cannot run without.
pub open spec fn required_tool_fields(tool_name: Seq<char>) -> Seq<Seq<char>> {
    if tool_name == "write_file"@ {
        seq!["file_path"@, "content"@]
    } else if tool_name == "edit_file"@ {
        seq!["file_path"@, "old_string"@, "new_string"@]
    } else if tool_name == "delete_file"@ || tool_name == "read_file"@ {
        seq!["file_path"@]
    } else if tool_name == "execute"@ {
        seq!["command"@]
    } else {
        Seq::empty()
    }
}

/// The first required field that is not a string of the arguments.
pub open spec fn first_missing_str(fields: Seq<Seq<char>>, args: serde_json::Value) -> Option<Seq<char>>
    decreases fields.len(),
{
    if fields.len() == 0 {
        None
    } else if json_str_field(args, fields[0]) is None {
        Some(fields[0])
    } else {
        first_missing_str(fields.drop_first(), args)
    }
}

/// Why a tool's arguments are refused, if they are: they must be an
/// object holding the tool's required fields as strings.
pub open spec fn edit_args_error(tool_name: Seq<char>, args: serde_json::Value) -> Option<Seq<char>> {
    if json_kind_of(args) != JsonKind::Object {
        Some("args must be a JSON object"@)
    } else {
        match first_missing_str(required_tool_fields(tool_name), args) {
            Some(f) => Some("missing required field: "@ + f),
            None => None,
        }
    }
}

fn check_fields(fields: &[&str], args: &serde_json::Value) -> (r: Result<(), String>)
    ensures
        match r {
            Ok(()) => first_missing_str(fields@.map_values(|f: &str| f@), *args) is None,
            Err(e) => first_missing_str(fields@.map_values(|f: &str| f@), *args) matches Some(f) && e@ == "missing required field: "@ + f,
        },
{
    let ghost fv = fields@.map_values(|f: &str| f@);
    assert(fv.skip(0) =~= fv);
    let mut i: usize = 0;
    while i < fields.len()
        invariant
            i <= fields.len(),
            fv == fields@.map_values(|f: &str| f@),
            first_missing_str(fv, *args) == first_missing_str(fv.skip(i as int), *args),
        decreases fields.len() - i,
    {
        let ghost t = fv.skip(i as int);
        assert(t[0] == fields@[i as int]@);
        assert(t.drop_first() =~= fv.skip(i as int + 1));
        if json_get_str(args, fields[i]).is_none() {
            let mut e = owned("missing required field: ");
            crate::text::push_str(&mut e, fields[i]);
            return Err(e);
        }
        i = i + 1;
    }
    Ok(())
}

/// Checks the arguments of a file or command tool before it runs.
pub fn validate_edit_args(tool_name: &str, args: &serde_json::Value) -> (r: Result<(), String>)
    ensures
        match r {
            Ok(()) => edit_args_error(tool_name@, *args) is None,
            Err(e) => edit_args_error(tool_name@, *args) == Some(e@),
        },
{
    if json_kind(args) != JsonKind::Object {
        return Err(owned("args must be a JSON object"));
    }
    let fields: Vec<&str> = if str_eq(tool_name, "write_file") {
        vec!["file_path", "content"]
    } else if str_eq(tool_name, "edit_file") {
        vec!["file_path", "old_string", "new_string"]
    } else if str_eq(tool_name, "delete_file") || str_eq(tool_name, "read_file") {
        vec!["file_path"]
    } else if str_eq(tool_name, "execute") {
        vec!["command"]
    } else {
        Vec::new()
    };
    assert(fields@.map_values(|f: &str| f@) =~= required_tool_fields(tool_name@));
    check_fields(fields.as_slice(), args)
}

} // verus!
