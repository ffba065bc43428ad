//! What becomes of each tool call a step asks for, before it runs: refused
//! as invalid or as a parallel todo update, refused or held by the command
//! approval policy, held for a human, or let through.
use vstd::prelude::*;

use crate::provider::protocol::AgentToolCall;
use crate::text::{owned, push_str, str_eq};

verus! {

/// What the command approval policy says of an `execute` call.
#[derive(Debug, Clone)]
pub enum ApprovalVerdict {
    Allow,
    Deny { code: String, reason: String },
    RequireApproval { code: String, reason: String },
}

/// What becomes of a call.
#[derive(Debug, Clone)]
pub enum CallDisposition {
    /// Its normalization failed; its error is the result.
    Invalid,
    /// One of several `write_todos` calls of the same step.
    ParallelTodos { error: String },
    /// The approval policy refused it, or asked for an approval that a
    /// non-interactive run cannot give.
    NotAllowed { code: String, reason: String, error: String },
    /// It waits for a human decision; the calls after it wait with it.
    Interrupt,
    /// It goes on to the middlewares and the tool.
    Proceed,
}

/// The error a parallel `write_todos` call gets.
pub open spec fn parallel_todos_error() -> Seq<char> {
    "Error: The `write_todos` tool should never be called multiple times in parallel. Please call it only once per model invocation to update the todo list."@
}

/// `command_not_allowed: <code>: <reason>`.
pub open spec fn not_allowed_error(code: Seq<char>, reason: Seq<char>) -> Seq<char> {
    "command_not_allowed: "@ + code + ": "@ + reason
}

/// Number of calls of `write_todos`.
pub open spec fn todo_call_count(calls: Seq<AgentToolCall>) -> nat
    decreases calls.len(),
{
    if calls.len() == 0 {
        0
    } else {
        todo_call_count(calls.drop_last()) + if calls.last().tool_name@ == "write_todos"@ {
            1nat
        } else {
            0nat
        }
    }
}

/// The disposition of a call, by views: `valid` when it normalized, the
/// number of `write_todos` calls in its step, the policy's verdict when the
/// call is `execute` and a policy is set, whether the run is
/// non-interactive, and whether its tool is marked to interrupt.
pub enum DispositionView {
    Invalid,
    ParallelTodos(Seq<char>),
    NotAllowed(Seq<char>, Seq<char>, Seq<char>),
    Interrupt,
    Proceed,
}

pub open spec fn disposition_view(d: CallDisposition) -> DispositionView {
    match d {
        CallDisposition::Invalid => DispositionView::Invalid,
        CallDisposition::ParallelTodos { error } => DispositionView::ParallelTodos(error@),
        CallDisposition::NotAllowed { code, reason, error } => DispositionView::NotAllowed(code@, reason@, error@),
        CallDisposition::Interrupt => DispositionView::Interrupt,
        CallDisposition::Proceed => DispositionView::Proceed,
    }
}

pub open spec fn call_disposition_of(
    valid: bool,
    tool_name: Seq<char>,
    todo_calls: nat,
    verdict: Option<ApprovalVerdict>,
    non_interactive: bool,
    interrupt_on: bool,
) -> DispositionView {
    if !valid {
        DispositionView::Invalid
    } else if todo_calls > 1 && tool_name == "write_todos"@ {
        DispositionView::ParallelTodos(parallel_todos_error())
    } else {
        let by_policy = if tool_name == "execute"@ {
            match verdict {
                Some(ApprovalVerdict::Deny { code, reason }) => Some(
                    DispositionView::NotAllowed(code@, reason@, not_allowed_error(code@, reason@)),
                ),
                Some(ApprovalVerdict::RequireApproval { code, reason }) => if non_interactive {
                    Some(DispositionView::NotAllowed(code@, reason@, not_allowed_error(code@, reason@)))
                } else {
                    Some(DispositionView::Interrupt)
                },
                _ => None,
            }
        } else {
            None
        };
        match by_policy {
            Some(d) => d,
            None => if interrupt_on {
                DispositionView::Interrupt
            } else {
                DispositionView::Proceed
            },
        }
    }
}

/// Counts the `write_todos` calls of a step.
pub fn count_todo_calls(calls: &[AgentToolCall]) -> (r: usize)
    ensures
        r == todo_call_count(calls@),
{
    let mut n: usize = 0;
    let mut i: usize = 0;
    while i < calls.len()
        invariant
            i <= calls.len(),
            n == todo_call_count(calls@.take(i as int)),
            n <= i,
        decreases calls.len() - i,
    {
        assert(calls@.take(i as int + 1).drop_last() =~= calls@.take(i as int));
        if str_eq(calls[i].tool_name.as_str(), "write_todos") {
            n = n + 1;
        }
        i = i + 1;
    }
    assert(calls@.take(calls.len() as int) =~= calls@);
    n
}

fn not_allowed(code: &String, reason: &String) -> (r: CallDisposition)
    ensures
        disposition_view(r) == DispositionView::NotAllowed(code@, reason@, not_allowed_error(code@, reason@)),
{
    let mut error = owned("command_not_allowed: ");
    push_str(&mut error, code.as_str());
    push_str(&mut error, ": ");
    push_str(&mut error, reason.as_str());
    CallDisposition::NotAllowed { code: code.clone(), reason: reason.clone(), error }
}

/// Decides what becomes of a call, in the order the runtime checks: an
/// invalid call, a parallel todo update, the approval policy's verdict on
/// an `execute` call (`verdict` is the policy's answer, `None` without a
/// policy), then the tool's interrupt mark.
pub fn call_disposition(
    valid: bool,
    tool_name: &str,
    todo_calls: usize,
    verdict: &Option<ApprovalVerdict>,
    non_interactive: bool,
    interrupt_on: bool,
) -> (r: CallDisposition)
    ensures
        disposition_view(r) == call_disposition_of(
            valid,
            tool_name@,
            todo_calls as nat,
            *verdict,
            non_interactive,
            interrupt_on,
        ),
{
    if !valid {
        return CallDisposition::Invalid;
    }
    if todo_calls > 1 && str_eq(tool_name, "write_todos") {
        return CallDisposition::ParallelTodos {
            error: owned(
                "Error: The `write_todos` tool should never be called multiple times in parallel. Please call it only once per model invocation to update the todo list.",
            ),
        };
    }
    if str_eq(tool_name, "execute") {
        match verdict {
            Some(ApprovalVerdict::Deny { code, reason }) => {
                return not_allowed(code, reason);
            },
            Some(ApprovalVerdict::RequireApproval { code, reason }) => {
                if non_interactive {
                    return not_allowed(code, reason);
                }
                return CallDisposition::Interrupt;
            },
            _ => {},
        }
    }
    if interrupt_on {
        CallDisposition::Interrupt
    } else {
        CallDisposition::Proceed
    }
}

/// What becomes of a call a human answered, when it reaches the tool: on
/// `execute` the policy's verdict still holds, except that an approval it
/// asks for counts as given when the human approved.
pub open spec fn pending_disposition_of(tool_name: Seq<char>, verdict: Option<ApprovalVerdict>, approved_by_user: bool) -> DispositionView {
    if tool_name == "execute"@ {
        match verdict {
            Some(ApprovalVerdict::Deny { code, reason }) => DispositionView::NotAllowed(
                code@,
                reason@,
                not_allowed_error(code@, reason@),
            ),
            Some(ApprovalVerdict::RequireApproval { code, reason }) => if approved_by_user {
                DispositionView::Proceed
            } else {
                DispositionView::NotAllowed(code@, reason@, not_allowed_error(code@, reason@))
            },
            _ => DispositionView::Proceed,
        }
    } else {
        DispositionView::Proceed
    }
}

/// Decides what becomes of a resumed call, as [`pending_disposition_of`]
/// says.
pub fn pending_call_disposition(tool_name: &str, verdict: &Option<ApprovalVerdict>, approved_by_user: bool) -> (r:
    CallDisposition)
    ensures
        disposition_view(r) == pending_disposition_of(tool_name@, *verdict, approved_by_user),
{
    if str_eq(tool_name, "execute") {
        match verdict {
            Some(ApprovalVerdict::Deny { code, reason }) => not_allowed(code, reason),
            Some(ApprovalVerdict::RequireApproval { code, reason }) => if approved_by_user {
                CallDisposition::Proceed
            } else {
                not_allowed(code, reason)
            },
            _ => CallDisposition::Proceed,
        }
    } else {
        CallDisposition::Proceed
    }
}

/// The status a resumed call's result carries: `edited` when a human
/// changed its arguments, else `success`.
pub open spec fn resumed_status_text(edited: bool) -> Seq<char> {
    if edited {
        "edited"@
    } else {
        "success"@
    }
}

pub fn resumed_status(edited: bool) -> (r: String)
    ensures
        r@ == resumed_status_text(edited),
{
    if edited {
        owned("edited")
    } else {
        owned("success")
    }
}

} // verus!
