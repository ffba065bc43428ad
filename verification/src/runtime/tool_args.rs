//! Cutting the long string arguments of old file and command tool calls,
//! so that history stays small.
use vstd::prelude::*;

use crate::json::{JsonTree, json_of_tree, json_tree, json_tree_of, tree_to_json};
use crate::runtime::summarization_middleware::{should_truncate_tool, truncate_chars, truncated};
use crate::types::{Message, MessageView, ToolCall};

verus! {

/// `r` is `t` with every string cut to `max` characters (its middle
/// replaced by `text`), at any depth.
pub open spec fn truncated_of(r: JsonTree, t: JsonTree, max: nat, text: Seq<char>) -> bool
    decreases t,
{
    match t {
        JsonTree::Str(s) => r matches JsonTree::Str(x) && x@ == truncated(s@, max, text),
        JsonTree::Array(xs) => match r {
            JsonTree::Array(rs) => rs@.len() == xs@.len() && forall|i: int|
                0 <= i < xs@.len() ==> truncated_of(#[trigger] rs@[i], xs@[i], max, text),
            _ => false,
        },
        JsonTree::Object(es) => match r {
            JsonTree::Object(rs) => rs@.len() == es@.len() && forall|i: int|
                0 <= i < es@.len() ==> (#[trigger] rs@[i]).0 == es@[i].0 && truncated_of(rs@[i].1, es@[i].1, max, text),
            _ => false,
        },
        _ => r == t,
    }
}

/// Cuts the strings of a tree.
pub fn truncate_tree(t: &JsonTree, max_chars: usize, text: &str) -> (r: JsonTree)
    ensures
        truncated_of(r, *t, max_chars as nat, text@),
    decreases t,
{
    match t {
        JsonTree::Str(s) => JsonTree::Str(truncate_chars(s.as_str(), max_chars, text)),
        JsonTree::Array(xs) => {
            let mut rs: Vec<JsonTree> = Vec::new();
            let mut i: usize = 0;
            while i < xs.len()
                invariant
                    i <= xs.len(),
                    rs@.len() == i,
                    *t == JsonTree::Array(*xs),
                    forall|m: int| 0 <= m < i ==> truncated_of(#[trigger] rs@[m], xs@[m], max_chars as nat, text@),
                decreases xs.len() - i,
            {
                assert(decreases_to!(*t => xs@[i as int])) by {
                    assert(decreases_to!(*t => (*t)->Array_0));
                    assert(decreases_to!(*xs => xs@));
                    assert(decreases_to!(xs@ => xs@[i as int]));
                }
                let c = truncate_tree(&xs[i], max_chars, text);
                rs.push(c);
                i = i + 1;
            }
            JsonTree::Array(rs)
        },
        JsonTree::Object(es) => {
            let mut rs: Vec<(String, JsonTree)> = Vec::new();
            let mut i: usize = 0;
            while i < es.len()
                invariant
                    i <= es.len(),
                    rs@.len() == i,
                    *t == JsonTree::Object(*es),
                    forall|m: int|
                        0 <= m < i ==> (#[trigger] rs@[m]).0 == es@[m].0 && truncated_of(rs@[m].1, es@[m].1, max_chars as nat, text@),
                decreases es.len() - i,
            {
                assert(decreases_to!(*t => es@[i as int].1)) by {
                    assert(decreases_to!(*t => (*t)->Object_0));
                    assert(decreases_to!(*es => es@));
                    assert(decreases_to!(es@ => es@[i as int]));
                    assert(decreases_to!(es@[i as int] => es@[i as int].1));
                }
                let c = truncate_tree(&es[i].1, max_chars, text);
                let k = es[i].0.clone();
                rs.push((k, c));
                i = i + 1;
            }
            JsonTree::Object(rs)
        },
        JsonTree::Null => JsonTree::Null,
        JsonTree::Bool(b) => JsonTree::Bool(*b),
        JsonTree::Number(n) => JsonTree::Number(match n {
            crate::json::JsonNumber::PosInt(x) => crate::json::JsonNumber::PosInt(*x),
            crate::json::JsonNumber::NegInt(x) => crate::json::JsonNumber::NegInt(*x),
            crate::json::JsonNumber::Float(x) => crate::json::JsonNumber::Float(x.clone()),
        }),
    }
}

/// Cuts the strings of a JSON value.
pub fn truncate_value(value: &serde_json::Value, max_chars: usize, text: &str) -> (r: serde_json::Value)
    ensures
        exists|t: JsonTree| truncated_of(t, json_tree_of(*value), max_chars as nat, text@) && r == #[trigger] json_of_tree(t),
{
    let tree = json_tree(value);
    let cut = truncate_tree(&tree, max_chars, text);
    let r = tree_to_json(&cut);
    assert(truncated_of(cut, json_tree_of(*value), max_chars as nat, text@) && r == json_of_tree(cut));
    r
}

/// The messages whose tool arguments may be cut: all but the last
/// `keep_last`.
pub open spec fn cut_zone(len: nat, keep_last: nat) -> nat {
    if keep_last >= len {
        0
    } else {
        (len - keep_last) as nat
    }
}

/// `r` is the call `c`, its arguments cut where its tool is a file or
/// command tool.
pub open spec fn call_after(c: ToolCall, r: ToolCall, cut: bool, max: nat, text: Seq<char>) -> bool {
    &&& r.id == c.id
    &&& r.name == c.name
    &&& if cut && (c.name@ == "write_file"@ || c.name@ == "edit_file"@ || c.name@ == "execute"@) {
        exists|t: JsonTree| truncated_of(t, json_tree_of(c.arguments), max, text) && r.arguments == #[trigger] json_of_tree(t)
    } else {
        r.arguments == c.arguments
    }
}

/// `r` is the message `m` with its tool calls handled by [`call_after`].
pub open spec fn message_after(m: Message, r: Message, cut: bool, max: nat, text: Seq<char>) -> bool {
    &&& r.role == m.role
    &&& r.content == m.content
    &&& r.content_blocks == m.content_blocks
    &&& r.reasoning_content == m.reasoning_content
    &&& r.tool_call_id == m.tool_call_id
    &&& r.name == m.name
    &&& r.status == m.status
    &&& match (m.tool_calls, r.tool_calls) {
        (None, None) => true,
        (Some(cs), Some(rs)) => rs@.len() == cs@.len() && forall|j: int|
            0 <= j < cs@.len() ==> call_after(cs@[j], #[trigger] rs@[j], cut, max, text),
        _ => false,
    }
}

fn cut_calls(calls: Vec<ToolCall>, cut: bool, max_chars: usize, text: &str) -> (r: Vec<ToolCall>)
    ensures
        r@.len() == calls@.len(),
        forall|j: int| 0 <= j < calls@.len() ==> call_after(calls@[j], #[trigger] r@[j], cut, max_chars as nat, text@),
{
    let mut out: Vec<ToolCall> = Vec::new();
    let mut rest = calls;
    let ghost orig = rest@;
    assert(orig.skip(0) =~= orig);
    assert(orig.len() == rest.len());
    let mut k: usize = 0;
    while rest.len() > 0
        invariant
            orig.len() <= usize::MAX,
            k + rest.len() == orig.len(),
            rest@ == orig.skip(k as int),
            out@.len() == k,
            forall|j: int| 0 <= j < k ==> call_after(orig[j], #[trigger] out@[j], cut, max_chars as nat, text@),
        decreases rest.len(),
    {
        let c = rest.remove(0);
        proof {
            assert(rest@ =~= orig.skip(k as int + 1));
            assert(c == orig[k as int]);
        }
        let ToolCall { id, name, arguments } = c;
        let arguments = if cut && should_truncate_tool(name.as_str()) {
            truncate_value(&arguments, max_chars, text)
        } else {
            arguments
        };
        out.push(ToolCall { id, name, arguments });
        k = k + 1;
    }
    out
}

/// Cuts the string arguments of file and command tool calls in all but
/// the last `keep_last` messages.
pub fn truncate_tool_args(messages: Vec<Message>, keep_last: usize, max_chars: usize, text: &str) -> (r: Vec<Message>)
    ensures
        r@.len() == messages@.len(),
        forall|i: int|
            0 <= i < messages@.len() ==> message_after(
                messages@[i],
                #[trigger] r@[i],
                i < cut_zone(messages@.len(), keep_last as nat),
                max_chars as nat,
                text@,
            ),
{
    let keep_from = if keep_last >= messages.len() {
        0
    } else {
        messages.len() - keep_last
    };
    let mut out: Vec<Message> = Vec::new();
    let mut rest = messages;
    let ghost orig = rest@;
    assert(orig.skip(0) =~= orig);
    assert(orig.len() == rest.len());
    let mut k: usize = 0;
    while rest.len() > 0
        invariant
            orig.len() <= usize::MAX,
            k + rest.len() == orig.len(),
            keep_from == cut_zone(orig.len(), keep_last as nat),
            rest@ == orig.skip(k as int),
            out@.len() == k,
            forall|j: int|
                0 <= j < k ==> message_after(orig[j], #[trigger] out@[j], j < keep_from, max_chars as nat, text@),
        decreases rest.len(),
    {
        let m = rest.remove(0);
        proof {
            assert(rest@ =~= orig.skip(k as int + 1));
            assert(m == orig[k as int]);
        }
        let cut = k < keep_from;
        let Message { role, content, content_blocks, reasoning_content, tool_calls, tool_call_id, name, status } = m;
        let tool_calls = match tool_calls {
            Some(calls) => Some(cut_calls(calls, cut, max_chars, text)),
            None => None,
        };
        out.push(Message { role, content, content_blocks, reasoning_content, tool_calls, tool_call_id, name, status });
        k = k + 1;
    }
    out
}

} // verus!
