//! Running the tool calls of a step one by one: each call is normalized and
//! recorded, checked (invalid, parallel todo update, approval policy,
//! interrupt mark), offered to the middlewares, and run; its result is
//! recorded with the tool message the model will read. A call held for a
//! human stops the queue, and the calls behind it wait with it.
use vstd::prelude::*;

use crate::json::{
    json_bool_of, json_empty_object, json_field_of, json_from_bool, json_from_str, json_insert_field, json_kind_of,
    json_null, json_str_of, json_text_of, json_to_text, JsonKind,
};
use crate::provider::protocol::AgentToolCall;
use crate::runtime::call_policy::{
    count_todo_calls, todo_call_count, call_disposition, call_disposition_of, disposition_view, pending_call_disposition, pending_disposition_of,
    resumed_status, resumed_status_text, ApprovalVerdict, CallDisposition, DispositionView,
};
use crate::runtime::protocol::HitlPolicy;
use crate::runtime::run_output::{HitlInterrupt, RunRecords, ToolCallRecord, ToolResultRecord};
use crate::runtime::tool_compat::{needs_call_id, normalize_tool_call_for_execution, normalized_for_execution, NormalizedToolCall};
use crate::runtime::tool_errors::{parse_tool_error_string, tool_error_parts};
use crate::string_set::string_views;
use crate::text::{owned, push_str, str_eq};
use crate::types::{clone_opt, opt_str_view, ContentBlock, Message};

verus! {

/// The text field `key` of `v` holds `s`.
pub open spec fn text_field(v: serde_json::Value, key: Seq<char>, s: Seq<char>) -> bool {
    json_field_of(v, key) matches Some(f) && json_kind_of(f) == JsonKind::String && json_str_of(f) == s
}

/// The `error` member of a tool message: `{code, message}` when both are
/// known, else the error text, else `null`.
pub open spec fn error_json(e: serde_json::Value, error: Option<Seq<char>>, code: Option<Seq<char>>, message: Option<Seq<char>>) -> bool {
    match (code, message) {
        (Some(c), Some(m)) => {
            &&& json_kind_of(e) == JsonKind::Object
            &&& text_field(e, "code"@, c)
            &&& text_field(e, "message"@, m)
            &&& forall|k: Seq<char>| k != "code"@ && k != "message"@ ==> #[trigger] json_field_of(e, k) is None
        },
        _ => match error {
            Some(s) => json_kind_of(e) == JsonKind::String && json_str_of(e) == s,
            None => json_kind_of(e) == JsonKind::Null,
        },
    }
}

/// What a call's result holds, by views.
pub struct ToolResultView {
    pub tool_name: Seq<char>,
    pub call_id: Seq<char>,
    pub output: serde_json::Value,
    pub error: Option<Seq<char>>,
    pub error_code: Option<Seq<char>>,
    pub error_message: Option<Seq<char>>,
    pub status: Seq<char>,
    pub content: Seq<char>,
}

/// How a resumed call that ran is reported: edited or not, with the
/// arguments it was proposed with and those it ran with.
pub struct ResumedReport {
    pub edited: bool,
    pub original_args: serde_json::Value,
    pub effective_args: serde_json::Value,
}

/// The JSON of a tool message: call id, tool name, status, output (`null`
/// for an error), error (see [`error_json`]) and content, and nothing
/// else. A resumed call that ran reports instead call id, tool name,
/// status, output and content, and when its arguments were edited also
/// `edited: true`, the original and the effective arguments.
pub open spec fn tool_message_json(v: serde_json::Value, t: ToolResultView, resumed: Option<ResumedReport>) -> bool {
    &&& json_kind_of(v) == JsonKind::Object
    &&& text_field(v, "tool_call_id"@, t.call_id)
    &&& text_field(v, "tool_name"@, t.tool_name)
    &&& text_field(v, "status"@, t.status)
    &&& text_field(v, "content"@, t.content)
    &&& match resumed {
        None => {
            &&& json_field_of(v, "output"@) matches Some(o) && (if t.error is Some {
                json_kind_of(o) == JsonKind::Null
            } else {
                o == t.output
            })
            &&& json_field_of(v, "error"@) matches Some(e) && error_json(e, t.error, t.error_code, t.error_message)
            &&& forall|k: Seq<char>|
                k != "tool_call_id"@ && k != "tool_name"@ && k != "status"@ && k != "content"@ && k != "output"@
                    && k != "error"@ ==> #[trigger] json_field_of(v, k) is None
        },
        Some(rp) => {
            &&& json_field_of(v, "output"@) == Some(t.output)
            &&& if rp.edited {
                &&& json_field_of(v, "edited"@) matches Some(b) && json_bool_of(b) == Some(true)
                &&& json_field_of(v, "original_args"@) == Some(rp.original_args)
                &&& json_field_of(v, "effective_args"@) == Some(rp.effective_args)
                &&& forall|k: Seq<char>|
                    k != "tool_call_id"@ && k != "tool_name"@ && k != "status"@ && k != "content"@ && k != "output"@
                        && k != "edited"@ && k != "original_args"@ && k != "effective_args"@
                        ==> #[trigger] json_field_of(v, k) is None
            } else {
                forall|k: Seq<char>|
                    k != "tool_call_id"@ && k != "tool_name"@ && k != "status"@ && k != "content"@ && k != "output"@
                        ==> #[trigger] json_field_of(v, k) is None
            }
        },
    }
}

/// The result record of a call.
pub open spec fn result_record_is(r: ToolResultRecord, t: ToolResultView) -> bool {
    &&& r.tool_name@ == t.tool_name
    &&& opt_str_view(r.call_id) == Some(t.call_id)
    &&& r.output == t.output
    &&& opt_str_view(r.error) == t.error
    &&& opt_str_view(r.error_code) == t.error_code
    &&& opt_str_view(r.error_message) == t.error_message
    &&& opt_str_view(r.status) == Some(t.status)
}

/// The tool message of a call: role `tool`, the message JSON as text, the
/// output's content blocks, and the call's id, tool name and status.
pub open spec fn tool_message_is(m: Message, t: ToolResultView, resumed: Option<ResumedReport>, blocks: Option<Vec<ContentBlock>>) -> bool {
    &&& m.role@ == "tool"@
    &&& exists|v: serde_json::Value| tool_message_json(v, t, resumed) && #[trigger] json_text_of(v) == m.content@
    &&& m.content_blocks == blocks
    &&& m.reasoning_content is None
    &&& m.tool_calls is None
    &&& opt_str_view(m.tool_call_id) == Some(t.call_id)
    &&& opt_str_view(m.name) == Some(t.tool_name)
    &&& opt_str_view(m.status) == Some(t.status)
}

/// A call's result as plain values.
pub struct ToolResultParts {
    pub tool_name: String,
    pub call_id: String,
    pub output: serde_json::Value,
    pub error: Option<String>,
    pub error_code: Option<String>,
    pub error_message: Option<String>,
    pub status: String,
    pub content: String,
    pub content_blocks: Option<Vec<ContentBlock>>,
}

pub open spec fn parts_view(p: ToolResultParts) -> ToolResultView {
    ToolResultView {
        tool_name: p.tool_name@,
        call_id: p.call_id@,
        output: p.output,
        error: opt_str_view(p.error),
        error_code: opt_str_view(p.error_code),
        error_message: opt_str_view(p.error_message),
        status: p.status@,
        content: p.content@,
    }
}

fn error_value(error: &Option<String>, code: &Option<String>, message: &Option<String>) -> (r: serde_json::Value)
    ensures
        error_json(r, opt_str_view(*error), opt_str_view(*code), opt_str_view(*message)),
{
    match (code, message) {
        (Some(c), Some(m)) => {
            proof {
                reveal_strlit("code");
                reveal_strlit("message");
                assert("code"@.len() == 4 && "message"@.len() == 7);
            }
            let mut e = json_empty_object();
            let ghost e0 = e;
            json_insert_field(&mut e, "code", json_from_str(c.as_str()));
            let ghost e1 = e;
            json_insert_field(&mut e, "message", json_from_str(m.as_str()));
            assert(json_field_of(e, "code"@) == json_field_of(e1, "code"@));
            assert forall|k: Seq<char>| k != "code"@ && k != "message"@ implies #[trigger] json_field_of(e, k) is None by {
                assert(json_field_of(e, k) == json_field_of(e1, k));
                assert(json_field_of(e1, k) == json_field_of(e0, k));
            }
            e
        },
        _ => match error {
            Some(s) => json_from_str(s.as_str()),
            None => json_null(),
        },
    }
}

proof fn lemma_message_keys()
    ensures
        "tool_call_id"@.len() == 12,
        "tool_name"@.len() == 9,
        "status"@.len() == 6,
        "content"@.len() == 7,
        "output"@.len() == 6,
        "error"@.len() == 5,
        "edited"@.len() == 6,
        "original_args"@.len() == 13,
        "effective_args"@.len() == 14,
        "status"@ != "output"@,
        "edited"@ != "output"@,
        "edited"@ != "status"@,
{
    reveal_strlit("tool_call_id");
    reveal_strlit("tool_name");
    reveal_strlit("status");
    reveal_strlit("content");
    reveal_strlit("output");
    reveal_strlit("error");
    reveal_strlit("edited");
    reveal_strlit("original_args");
    reveal_strlit("effective_args");
    assert("status"@[0] != "output"@[0]);
    assert("edited"@[0] != "output"@[0]);
    assert("edited"@[0] != "status"@[0]);
}

fn message_json(p: &ToolResultParts, resumed: &Option<ResumedReport>) -> (r: serde_json::Value)
    ensures
        tool_message_json(r, parts_view(*p), *resumed),
{
    proof {
        lemma_message_keys();
    }
    let mut v = json_empty_object();
    let ghost v0 = v;
    json_insert_field(&mut v, "tool_call_id", json_from_str(p.call_id.as_str()));
    let ghost v1 = v;
    json_insert_field(&mut v, "tool_name", json_from_str(p.tool_name.as_str()));
    let ghost v2 = v;
    json_insert_field(&mut v, "status", json_from_str(p.status.as_str()));
    let ghost v3 = v;
    json_insert_field(&mut v, "content", json_from_str(p.content.as_str()));
    let ghost v4 = v;
    match resumed {
        None => {
            let out = if p.error.is_some() {
                json_null()
            } else {
                p.output.clone()
            };
            json_insert_field(&mut v, "output", out);
            let ghost v5 = v;
            json_insert_field(&mut v, "error", error_value(&p.error, &p.error_code, &p.error_message));
            assert(json_field_of(v, "output"@) == json_field_of(v5, "output"@));
            assert(json_field_of(v, "content"@) == json_field_of(v4, "content"@));
            assert(json_field_of(v, "status"@) == json_field_of(v3, "status"@));
            assert(json_field_of(v, "tool_name"@) == json_field_of(v2, "tool_name"@));
            assert(json_field_of(v, "tool_call_id"@) == json_field_of(v1, "tool_call_id"@));
            assert forall|k: Seq<char>|
                k != "tool_call_id"@ && k != "tool_name"@ && k != "status"@ && k != "content"@ && k != "output"@
                    && k != "error"@ implies #[trigger] json_field_of(v, k) is None by {
                assert(json_field_of(v, k) == json_field_of(v5, k));
                assert(json_field_of(v5, k) == json_field_of(v4, k));
                assert(json_field_of(v4, k) == json_field_of(v3, k));
                assert(json_field_of(v3, k) == json_field_of(v2, k));
                assert(json_field_of(v2, k) == json_field_of(v1, k));
                assert(json_field_of(v1, k) == json_field_of(v0, k));
            }
        },
        Some(rp) => {
            json_insert_field(&mut v, "output", p.output.clone());
            let ghost v5 = v;
            if rp.edited {
                json_insert_field(&mut v, "edited", json_from_bool(true));
                let ghost v6 = v;
                json_insert_field(&mut v, "original_args", rp.original_args.clone());
                let ghost v7 = v;
                json_insert_field(&mut v, "effective_args", rp.effective_args.clone());
                assert(json_field_of(v, "original_args"@) == json_field_of(v7, "original_args"@));
                assert(json_field_of(v, "edited"@) == json_field_of(v7, "edited"@));
                assert(json_field_of(v7, "edited"@) == json_field_of(v6, "edited"@));
                assert(json_field_of(v, "output"@) == json_field_of(v5, "output"@));
                assert(json_field_of(v, "content"@) == json_field_of(v4, "content"@));
                assert(json_field_of(v, "status"@) == json_field_of(v3, "status"@));
                assert(json_field_of(v, "tool_name"@) == json_field_of(v2, "tool_name"@));
                assert(json_field_of(v, "tool_call_id"@) == json_field_of(v1, "tool_call_id"@));
                assert forall|k: Seq<char>|
                    k != "tool_call_id"@ && k != "tool_name"@ && k != "status"@ && k != "content"@ && k != "output"@
                        && k != "edited"@ && k != "original_args"@ && k != "effective_args"@ implies #[trigger] json_field_of(
                    v,
                    k,
                ) is None by {
                    assert(json_field_of(v, k) == json_field_of(v7, k));
                    assert(json_field_of(v7, k) == json_field_of(v6, k));
                    assert(json_field_of(v6, k) == json_field_of(v5, k));
                    assert(json_field_of(v5, k) == json_field_of(v4, k));
                    assert(json_field_of(v4, k) == json_field_of(v3, k));
                    assert(json_field_of(v3, k) == json_field_of(v2, k));
                    assert(json_field_of(v2, k) == json_field_of(v1, k));
                    assert(json_field_of(v1, k) == json_field_of(v0, k));
                }
            } else {
                assert(json_field_of(v, "content"@) == json_field_of(v4, "content"@));
                assert(json_field_of(v, "status"@) == json_field_of(v3, "status"@));
                assert(json_field_of(v, "tool_name"@) == json_field_of(v2, "tool_name"@));
                assert(json_field_of(v, "tool_call_id"@) == json_field_of(v1, "tool_call_id"@));
                assert forall|k: Seq<char>|
                    k != "tool_call_id"@ && k != "tool_name"@ && k != "status"@ && k != "content"@ && k != "output"@
                        implies #[trigger] json_field_of(v, k) is None by {
                    assert(json_field_of(v, k) == json_field_of(v4, k));
                    assert(json_field_of(v4, k) == json_field_of(v3, k));
                    assert(json_field_of(v3, k) == json_field_of(v2, k));
                    assert(json_field_of(v2, k) == json_field_of(v1, k));
                    assert(json_field_of(v1, k) == json_field_of(v0, k));
                }
            }
        },
    }
    v
}

/// Records a call's result and gives the tool message for it.
pub fn record_tool_result(records: &mut RunRecords, parts: ToolResultParts, resumed: Option<ResumedReport>) -> (m: Message)
    ensures
        final(records).tool_calls == old(records).tool_calls,
        final(records).interrupts == old(records).interrupts,
        final(records).state == old(records).state,
        final(records).tool_results@.len() == old(records).tool_results@.len() + 1,
        final(records).tool_results@.drop_last() == old(records).tool_results@,
        result_record_is(final(records).tool_results@.last(), parts_view(parts)),
        tool_message_is(m, parts_view(parts), resumed, parts.content_blocks),
{
    let v = message_json(&parts, &resumed);
    let text = match json_to_text(&v) {
        Some(t) => t,
        None => String::new(),
    };
    let ghost pv = parts_view(parts);
    let rec = ToolResultRecord {
        tool_name: parts.tool_name.clone(),
        call_id: Some(parts.call_id.clone()),
        output: parts.output.clone(),
        error: clone_opt(&parts.error),
        error_code: clone_opt(&parts.error_code),
        error_message: clone_opt(&parts.error_message),
        status: Some(parts.status.clone()),
    };
    let ghost before = records.tool_results@;
    records.tool_results.push(rec);
    assert(records.tool_results@.drop_last() =~= before);
    let ToolResultParts { tool_name, call_id, status, content_blocks, .. } = parts;
    Message {
        role: owned("tool"),
        content: text,
        content_blocks,
        reasoning_content: None,
        tool_calls: None,
        tool_call_id: Some(call_id),
        name: Some(tool_name),
        status: Some(status),
    }
}

// ----- the queue of calls -----

/// Settings of the queue: whether an approval policy judges `execute`
/// calls, whether the run can ask a human, and the tools marked to
/// interrupt before they run.
#[derive(Debug)]
pub struct CallsConfig {
    pub approval_policy: bool,
    pub non_interactive: bool,
    pub interrupt_on: Vec<String>,
}

/// Where the queue stands.
#[derive(Debug, Clone, Copy, PartialEq, Eq, Structural)]
pub enum CallsPhase {
    /// Ready to take the next call.
    Next,
    /// The approval policy judges the call under way.
    AwaitVerdict,
    /// The middlewares may serve the call under way.
    AwaitMiddleware,
    /// The tool runs the call under way.
    AwaitTool,
    /// A call waits for a human; the queue stops.
    Interrupted,
    /// Every call ran.
    Done,
}

/// A resumed call: the arguments a human gave it, if edited, and those it
/// was proposed with.
#[derive(Debug)]
pub struct ResumeInfo {
    pub edited_args: Option<serde_json::Value>,
    pub original_args: serde_json::Value,
}

/// The state of the queue.
#[derive(Debug)]
pub struct CallsState {
    /// Calls not taken yet, in order.
    pub queue: Vec<AgentToolCall>,
    /// The number of `write_todos` calls of the batch.
    pub todo_calls: usize,
    /// The counter that numbers made-up call ids.
    pub next_call_id: u64,
    /// The call under way.
    pub current: Option<AgentToolCall>,
    /// Set while the call under way is a resumed one.
    pub resumed: Option<ResumeInfo>,
    pub phase: CallsPhase,
}

/// What a middleware made of a call: its output, its error, and the
/// content the model reads (the error, or the output as offloaded).
#[derive(Debug)]
pub struct ServedCall {
    pub output: serde_json::Value,
    pub error: Option<String>,
    pub content: String,
}

/// What running a tool gave: its output (with the content the model reads,
/// after offloading, and its content blocks), or its error by code and
/// message.
#[derive(Debug)]
pub enum ToolRun {
    Success { output: serde_json::Value, content: String, content_blocks: Option<Vec<ContentBlock>> },
    Failed { code: String, message: String },
}

/// What the caller hands back.
#[derive(Debug)]
pub enum CallsEvent {
    /// Take the next call.
    Next,
    /// The approval policy's verdict on the call's command.
    Verdict { verdict: Option<ApprovalVerdict> },
    /// A middleware served the call, or none did.
    Served { served: Option<ServedCall> },
    /// The tool ran.
    ToolDone { run: ToolRun },
}

/// What the caller does next.
#[derive(Debug)]
pub enum CallsAction {
    /// Ask the approval policy about the call's command.
    AskApproval,
    /// Offer the call to the middlewares.
    RunMiddlewares,
    /// Run the tool with these arguments.
    RunTool { arguments: serde_json::Value },
    /// A call finished: append its tool message, then hand back `Next`.
    NextCall { message: Message },
    /// Stop: the call waits for a human, the remaining calls with it.
    Interrupt { interrupt: HitlInterrupt, call: AgentToolCall, remaining: Vec<AgentToolCall> },
    /// Every call ran.
    Done,
    /// The event does not fit the phase; nothing changes.
    Ignore,
}

/// The id a call's records carry: its id, or empty.
pub open spec fn call_id_view(c: AgentToolCall) -> Seq<char> {
    match c.call_id {
        Some(id) => id@,
        None => Seq::empty(),
    }
}

/// A call's record.
pub open spec fn call_record_is(r: ToolCallRecord, c: AgentToolCall) -> bool {
    r.tool_name@ == c.tool_name@ && r.arguments == c.arguments && opt_str_view(r.call_id) == Some(call_id_view(c))
}

/// The result a call is owed, by views; `output` is `None` for `null`.
pub struct ExpectedResult {
    pub output: Option<serde_json::Value>,
    pub error: Option<Seq<char>>,
    pub error_code: Option<Seq<char>>,
    pub error_message: Option<Seq<char>>,
    pub status: Seq<char>,
    pub content: Seq<char>,
    pub blocks: Option<Vec<ContentBlock>>,
}

pub open spec fn parts_expected(p: ToolResultParts, c: AgentToolCall, e: ExpectedResult) -> bool {
    &&& p.tool_name@ == c.tool_name@
    &&& p.call_id@ == call_id_view(c)
    &&& match e.output {
        Some(o) => p.output == o,
        None => json_kind_of(p.output) == JsonKind::Null,
    }
    &&& opt_str_view(p.error) == e.error
    &&& opt_str_view(p.error_code) == e.error_code
    &&& opt_str_view(p.error_message) == e.error_message
    &&& p.status@ == e.status
    &&& p.content@ == e.content
    &&& p.content_blocks == e.blocks
}

/// An error text as a result: `null` output, the text split into code and
/// message, status `error`, the text as content.
pub open spec fn error_expected(err: Seq<char>) -> ExpectedResult {
    ExpectedResult {
        output: None,
        error: Some(err),
        error_code: Some(tool_error_parts(err).0),
        error_message: Some(tool_error_parts(err).1),
        status: "error"@,
        content: err,
        blocks: None,
    }
}

/// A refusal by the approval policy.
pub open spec fn refused_expected(code: Seq<char>, reason: Seq<char>, err: Seq<char>) -> ExpectedResult {
    ExpectedResult {
        output: None,
        error: Some(err),
        error_code: Some(code),
        error_message: Some(reason),
        status: "error"@,
        content: err,
        blocks: None,
    }
}

/// A call a middleware served.
pub open spec fn served_expected(s: ServedCall) -> ExpectedResult {
    ExpectedResult {
        output: Some(s.output),
        error: opt_str_view(s.error),
        error_code: match s.error {
            Some(e) => Some(tool_error_parts(e@).0),
            None => None,
        },
        error_message: match s.error {
            Some(e) => Some(tool_error_parts(e@).1),
            None => None,
        },
        status: if s.error is Some { "error"@ } else { "success"@ },
        content: s.content@,
        blocks: None,
    }
}

/// A call the tool ran; a resumed call that succeeded is `edited` when a
/// human changed its arguments.
pub open spec fn run_expected(run: ToolRun, resumed: Option<ResumeInfo>) -> ExpectedResult {
    match run {
        ToolRun::Success { output, content, content_blocks } => ExpectedResult {
            output: Some(output),
            error: None,
            error_code: None,
            error_message: None,
            status: match resumed {
                Some(info) => resumed_status_text(info.edited_args is Some),
                None => "success"@,
            },
            content: content@,
            blocks: content_blocks,
        },
        ToolRun::Failed { code, message } => ExpectedResult {
            output: None,
            error: Some(code@ + ": "@ + message@),
            error_code: Some(code@),
            error_message: Some(message@),
            status: "error"@,
            content: code@ + ": "@ + message@,
            blocks: None,
        },
    }
}

/// How a resumed call that ran is reported in its message.
pub open spec fn report_of(c: AgentToolCall, run: ToolRun, resumed: Option<ResumeInfo>) -> Option<ResumedReport> {
    match (run, resumed) {
        (ToolRun::Success { .. }, Some(info)) => Some(
            ResumedReport {
                edited: info.edited_args is Some,
                original_args: info.original_args,
                effective_args: match info.edited_args {
                    Some(a) => a,
                    None => c.arguments,
                },
            },
        ),
        _ => None,
    }
}

/// The call finished with result `e`: its result is recorded and the
/// action hands over its tool message; the other records stay.
pub open spec fn finished_with(
    before: RunRecords,
    after: RunRecords,
    r: CallsAction,
    c: AgentToolCall,
    e: ExpectedResult,
    rp: Option<ResumedReport>,
) -> bool {
    &&& after.interrupts == before.interrupts
    &&& after.state == before.state
    &&& after.tool_results@.len() == before.tool_results@.len() + 1
    &&& after.tool_results@.drop_last() == before.tool_results@
    &&& r matches CallsAction::NextCall { message } && exists|p: ToolResultParts|
        parts_expected(p, c, e) && result_record_is(after.tool_results@.last(), parts_view(p)) && #[trigger] tool_message_is(
            message,
            parts_view(p),
            rp,
            p.content_blocks,
        )
}

/// The results, interrupts and state in the records are as they were.
pub open spec fn records_kept(before: RunRecords, after: RunRecords) -> bool {
    after.interrupts == before.interrupts && after.tool_results == before.tool_results && after.state == before.state
}

/// The tool is marked to interrupt.
pub open spec fn marked(config: CallsConfig, name: Seq<char>) -> bool {
    string_views(config.interrupt_on@).contains(name)
}

/// The interrupt of a call held for a human: named after the call's id,
/// with its tool and arguments, the default policy and no hints.
pub open spec fn interrupt_of(i: HitlInterrupt, c: AgentToolCall) -> bool {
    &&& i.interrupt_id@ == call_id_view(c)
    &&& i.tool_call_id@ == call_id_view(c)
    &&& i.tool_name@ == c.tool_name@
    &&& i.proposed_args == c.arguments
    &&& i.policy.allow_approve && i.policy.allow_reject && i.policy.allow_edit
    &&& i.hints is None
}

/// What becomes of call `v` of the queue, given the approval verdict (see
/// `call_disposition_of`): a call that is not allowed finishes with its
/// error, an interrupt stops the queue with the calls behind it, and a
/// call that may proceed goes to the middlewares.
pub open spec fn decided(
    config: CallsConfig,
    todo: nat,
    rest: Seq<AgentToolCall>,
    after: CallsState,
    rb: RunRecords,
    ra: RunRecords,
    r: CallsAction,
    v: AgentToolCall,
    verdict: Option<ApprovalVerdict>,
) -> bool {
    match call_disposition_of(true, v.tool_name@, todo, verdict, config.non_interactive, marked(config, v.tool_name@)) {
        DispositionView::NotAllowed(code, reason, err) => finished_with(rb, ra, r, v, refused_expected(code, reason, err), None)
            && after.phase == CallsPhase::Next && after.current is None,
        DispositionView::Interrupt => {
            &&& records_kept(rb, ra)
            &&& after.phase == CallsPhase::Interrupted
            &&& r matches CallsAction::Interrupt { interrupt, call, remaining } && interrupt_of(interrupt, v) && call == v
                && remaining@ == rest
        },
        DispositionView::Proceed => {
            &&& records_kept(rb, ra)
            &&& after.phase == CallsPhase::AwaitMiddleware
            &&& after.current == Some(v)
            &&& r is RunMiddlewares
        },
        _ => false,
    }
}

fn contains_name(names: &Vec<String>, name: &str) -> (r: bool)
    ensures
        r == string_views(names@).contains(name@),
{
    let mut i: usize = 0;
    while i < names.len()
        invariant
            i <= names.len(),
            forall|j: int| 0 <= j < i ==> string_views(names@)[j] != name@,
        decreases names.len() - i,
    {
        if str_eq(names[i].as_str(), name) {
            assert(string_views(names@)[i as int] == name@);
            return true;
        }
        i = i + 1;
    }
    false
}

fn call_id_text(c: &AgentToolCall) -> (r: String)
    ensures
        r@ == call_id_view(*c),
{
    match &c.call_id {
        Some(id) => id.clone(),
        None => String::new(),
    }
}

fn error_parts(c: &AgentToolCall, err: String) -> (r: ToolResultParts)
    ensures
        parts_expected(r, *c, error_expected(err@)),
{
    let (code, message) = parse_tool_error_string(err.as_str());
    ToolResultParts {
        tool_name: c.tool_name.clone(),
        call_id: call_id_text(c),
        output: json_null(),
        error: Some(err.clone()),
        error_code: Some(code),
        error_message: Some(message),
        status: owned("error"),
        content: err,
        content_blocks: None,
    }
}

fn finish_call(
    records: &mut RunRecords,
    c: &AgentToolCall,
    parts: ToolResultParts,
    resumed: Option<ResumedReport>,
    Ghost(e): Ghost<ExpectedResult>,
) -> (r: CallsAction)
    requires
        parts_expected(parts, *c, e),
    ensures
        finished_with(*old(records), *final(records), r, *c, e, resumed),
        final(records).tool_calls == old(records).tool_calls,
{
    let ghost p = parts;
    let m = record_tool_result(records, parts, resumed);
    assert(tool_message_is(m, parts_view(p), resumed, p.content_blocks));
    CallsAction::NextCall { message: m }
}

/// Applies the checks to call `v` of the queue, with the policy's verdict.
fn decide(
    state: &mut CallsState,
    records: &mut RunRecords,
    config: &CallsConfig,
    v: AgentToolCall,
    verdict: Option<ApprovalVerdict>,
) -> (r: CallsAction)
    requires
        !(old(state).todo_calls > 1 && v.tool_name@ == "write_todos"@),
    ensures
        decided(*config, old(state).todo_calls as nat, old(state).queue@, *final(state), *old(records), *final(records), r, v, verdict),
        final(records).tool_calls == old(records).tool_calls,
        final(state).queue == old(state).queue,
        final(state).todo_calls == old(state).todo_calls,
        final(state).next_call_id == old(state).next_call_id,
        final(state).resumed == old(state).resumed,
{
    let marked = contains_name(&config.interrupt_on, v.tool_name.as_str());
    let d = call_disposition(true, v.tool_name.as_str(), state.todo_calls, &verdict, config.non_interactive, marked);
    match d {
        CallDisposition::NotAllowed { code, reason, error } => {
            let parts = ToolResultParts {
                tool_name: v.tool_name.clone(),
                call_id: call_id_text(&v),
                output: json_null(),
                error: Some(error.clone()),
                error_code: Some(code),
                error_message: Some(reason),
                status: owned("error"),
                content: error,
                content_blocks: None,
            };
            let ghost e = refused_expected(parts.error_code->0@, parts.error_message->0@, parts.content@);
            state.phase = CallsPhase::Next;
            state.current = None;
            finish_call(records, &v, parts, None, Ghost(e))
        },
        CallDisposition::Interrupt => {
            let id = call_id_text(&v);
            let interrupt = HitlInterrupt {
                interrupt_id: id.clone(),
                tool_name: v.tool_name.clone(),
                tool_call_id: id,
                proposed_args: v.arguments.clone(),
                policy: HitlPolicy::default(),
                hints: None,
            };
            let remaining = clone_calls(&state.queue);
            state.phase = CallsPhase::Interrupted;
            let r = CallsAction::Interrupt { interrupt, call: v, remaining };
            r
        },
        _ => {
            state.phase = CallsPhase::AwaitMiddleware;
            state.current = Some(v);
            CallsAction::RunMiddlewares
        },
    }
}

pub(crate) fn clone_calls(v: &Vec<AgentToolCall>) -> (r: Vec<AgentToolCall>)
    ensures
        r@ == v@,
{
    let mut out: Vec<AgentToolCall> = Vec::new();
    let mut i: usize = 0;
    while i < v.len()
        invariant
            i <= v.len(),
            out@ == v@.take(i as int),
        decreases v.len() - i,
    {
        out.push(v[i].clone());
        assert(out@ =~= v@.take(i as int + 1));
        i = i + 1;
    }
    assert(v@.take(v.len() as int) =~= v@);
    out
}

/// The queue's invariant: a call under way in the phases that wait on it,
/// and only an `execute` call waits on the approval policy.
pub open spec fn calls_wf(s: CallsState) -> bool {
    &&& (s.phase == CallsPhase::AwaitVerdict ==> (s.current matches Some(v) && v.tool_name@ == "execute"@))
    &&& (s.phase == CallsPhase::AwaitMiddleware || s.phase == CallsPhase::AwaitTool ==> s.current is Some)
}

/// The arguments the call under way runs with: the edited ones of a
/// resumed call, else its own.
pub open spec fn effective_args(c: AgentToolCall, resumed: Option<ResumeInfo>) -> serde_json::Value {
    match resumed {
        Some(info) => match info.edited_args {
            Some(a) => a,
            None => c.arguments,
        },
        None => c.arguments,
    }
}

/// The parallel todo error.
pub open spec fn parallel_todos_text() -> Seq<char> {
    "Error: The `write_todos` tool should never be called multiple times in parallel. Please call it only once per model invocation to update the todo list."@
}

/// What taking call `c` of the queue did, `n` being what normalizing made
/// of it: an invalid call or a parallel todo update finishes with its
/// error; an `execute` call under a policy waits for the verdict; any other
/// call goes through the checks ([`decided`]) without one.
pub open spec fn taken(
    config: CallsConfig,
    todo: nat,
    rest: Seq<AgentToolCall>,
    after: CallsState,
    rb: RunRecords,
    ra: RunRecords,
    r: CallsAction,
    n: NormalizedToolCall,
) -> bool {
    match n {
        NormalizedToolCall::Invalid { call, error } => {
            &&& call_record_is(ra.tool_calls@.last(), call)
            &&& finished_with(rb, ra, r, call, error_expected(error@), None)
            &&& after.phase == CallsPhase::Next
        },
        NormalizedToolCall::Valid(v) => {
            &&& call_record_is(ra.tool_calls@.last(), v)
            &&& if todo > 1 && v.tool_name@ == "write_todos"@ {
                finished_with(rb, ra, r, v, error_expected(parallel_todos_text()), None) && after.phase == CallsPhase::Next
            } else if v.tool_name@ == "execute"@ && config.approval_policy {
                &&& records_kept(rb, ra)
                &&& after.phase == CallsPhase::AwaitVerdict
                &&& after.current == Some(v)
                &&& r is AskApproval
            } else {
                decided(config, todo, rest, after, rb, ra, r, v, None)
            }
        },
    }
}

/// One step of the queue. `Next` takes the next call (or ends the queue);
/// a verdict, a middleware's answer and a tool's result move the call under
/// way on; a call that finishes leaves its result in the records and its
/// tool message in the action. A resumed call reports the status `edited`
/// or `success`, and the policy's verdict counts its approval as given.
pub fn calls_step(state: &mut CallsState, records: &mut RunRecords, config: &CallsConfig, event: CallsEvent) -> (r: CallsAction)
    requires
        calls_wf(*old(state)),
        old(state).next_call_id < u64::MAX,
    ensures
        calls_wf(*final(state)),
        final(state).todo_calls == old(state).todo_calls,
        match (old(state).phase, event) {
            (CallsPhase::Next, CallsEvent::Next) => if old(state).queue@.len() == 0 {
                &&& r is Done
                &&& final(state).phase == CallsPhase::Done
                &&& records_kept(*old(records), *final(records))
                &&& final(records).tool_calls == old(records).tool_calls
            } else {
                let c = old(state).queue@[0];
                &&& final(state).queue@ == old(state).queue@.drop_first()
                &&& final(state).next_call_id == old(state).next_call_id + if needs_call_id(c) { 1int } else { 0int }
                &&& final(records).tool_calls@.len() == old(records).tool_calls@.len() + 1
                &&& final(records).tool_calls@.drop_last() == old(records).tool_calls@
                &&& exists|n: NormalizedToolCall|
                    normalized_for_execution(c, old(state).next_call_id as nat, n) && #[trigger] taken(
                        *config,
                        old(state).todo_calls as nat,
                        old(state).queue@.drop_first(),
                        *final(state),
                        *old(records),
                        *final(records),
                        r,
                        n,
                    )
            },
            (CallsPhase::AwaitVerdict, CallsEvent::Verdict { verdict }) => {
                let v = old(state).current->0;
                &&& final(records).tool_calls == old(records).tool_calls
                &&& final(state).queue == old(state).queue
                &&& match old(state).resumed {
                    None => decided(*config, old(state).todo_calls as nat, old(state).queue@, *final(state), *old(records), *final(records), r, v, verdict),
                    Some(info) => match pending_disposition_of(v.tool_name@, verdict, true) {
                        DispositionView::NotAllowed(code, reason, err) => finished_with(
                            *old(records),
                            *final(records),
                            r,
                            v,
                            refused_expected(code, reason, err),
                            None,
                        ) && final(state).phase == CallsPhase::Next && final(state).resumed is None,
                        _ => {
                            &&& records_kept(*old(records), *final(records))
                            &&& final(state).phase == CallsPhase::AwaitTool
                            &&& final(state).current == old(state).current
                            &&& final(state).resumed == old(state).resumed
                            &&& r matches CallsAction::RunTool { arguments } && arguments == effective_args(v, old(state).resumed)
                        },
                    },
                }
            },
            (CallsPhase::AwaitMiddleware, CallsEvent::Served { served }) => {
                let v = old(state).current->0;
                &&& final(records).tool_calls == old(records).tool_calls
                &&& final(state).queue == old(state).queue
                &&& match served {
                    Some(sv) => finished_with(*old(records), *final(records), r, v, served_expected(sv), None)
                        && final(state).phase == CallsPhase::Next && final(state).current is None
                        && final(state).resumed is None,
                    None => {
                        &&& records_kept(*old(records), *final(records))
                        &&& final(state).current == old(state).current
                        &&& final(state).resumed == old(state).resumed
                        &&& if old(state).resumed is Some && v.tool_name@ == "execute"@ && config.approval_policy {
                            final(state).phase == CallsPhase::AwaitVerdict && r is AskApproval
                        } else {
                            final(state).phase == CallsPhase::AwaitTool && (r matches CallsAction::RunTool { arguments }
                                && arguments == effective_args(v, old(state).resumed))
                        }
                    },
                }
            },
            (CallsPhase::AwaitTool, CallsEvent::ToolDone { run }) => {
                let v = old(state).current->0;
                &&& final(records).tool_calls == old(records).tool_calls
                &&& final(state).queue == old(state).queue
                &&& finished_with(*old(records), *final(records), r, v, run_expected(run, old(state).resumed), report_of(v, run, old(state).resumed))
                &&& final(state).phase == CallsPhase::Next
                &&& final(state).current is None
                &&& final(state).resumed is None
            },
            _ => r is Ignore && *final(state) == *old(state) && *final(records) == *old(records),
        },
{
    match (state.phase, event) {
        (CallsPhase::Next, CallsEvent::Next) => {
            if state.queue.len() == 0 {
                state.phase = CallsPhase::Done;
                return CallsAction::Done;
            }
            let c = state.queue.remove(0);
            let ghost gc = c;
            let n = normalize_tool_call_for_execution(c, &mut state.next_call_id);
            let ghost gn = n;
            match n {
                NormalizedToolCall::Invalid { call, error } => {
                    records.tool_calls.push(call_record(&call));
                    let parts = error_parts(&call, error);
                    state.phase = CallsPhase::Next;
                    state.current = None;
                    state.resumed = None;
                    let r = finish_call(records, &call, parts, None, Ghost(error_expected(parts_error_view(gn))));
                    proof {
                        assert(taken(*config, old(state).todo_calls as nat, old(state).queue@.drop_first(), *state, *old(records), *records, r, gn));
                    }
                    r
                },
                NormalizedToolCall::Valid(v) => {
                    records.tool_calls.push(call_record(&v));
                    let ghost mid = *records;
                    if state.todo_calls > 1 && str_eq(v.tool_name.as_str(), "write_todos") {
                        let parts = error_parts(&v, owned(
                            "Error: The `write_todos` tool should never be called multiple times in parallel. Please call it only once per model invocation to update the todo list.",
                        ));
                        state.phase = CallsPhase::Next;
                        state.current = None;
                        state.resumed = None;
                        let r = finish_call(records, &v, parts, None, Ghost(error_expected(parallel_todos_text())));
                        proof {
                            assert(taken(*config, old(state).todo_calls as nat, old(state).queue@.drop_first(), *state, *old(records), *records, r, gn));
                        }
                        r
                    } else if str_eq(v.tool_name.as_str(), "execute") && config.approval_policy {
                        state.phase = CallsPhase::AwaitVerdict;
                        state.current = Some(v);
                        state.resumed = None;
                        let r = CallsAction::AskApproval;
                        proof {
                            assert(taken(*config, old(state).todo_calls as nat, old(state).queue@.drop_first(), *state, *old(records), *records, r, gn));
                        }
                        r
                    } else {
                        state.resumed = None;
                        proof {
                            reveal_strlit("write_todos");
                        }
                        let r = decide(state, records, config, v, None);
                        proof {
                            assert(taken(*config, old(state).todo_calls as nat, old(state).queue@.drop_first(), *state, *old(records), *records, r, gn));
                        }
                        r
                    }
                },
            }
        },
        (CallsPhase::AwaitVerdict, CallsEvent::Verdict { verdict }) => {
            let v = match state.current.take() {
                Some(v) => v,
                None => {
                    return CallsAction::Ignore;
                },
            };
            match &state.resumed {
                None => {
                    proof {
                        reveal_strlit("write_todos");
                        reveal_strlit("execute");
                        assert("write_todos"@.len() != "execute"@.len());
                    }
                    decide(state, records, config, v, verdict)
                },
                Some(_) => {
                    match pending_call_disposition(v.tool_name.as_str(), &verdict, true) {
                        CallDisposition::NotAllowed { code, reason, error } => {
                            let parts = ToolResultParts {
                                tool_name: v.tool_name.clone(),
                                call_id: call_id_text(&v),
                                output: json_null(),
                                error: Some(error.clone()),
                                error_code: Some(code),
                                error_message: Some(reason),
                                status: owned("error"),
                                content: error,
                                content_blocks: None,
                            };
                            let ghost e = refused_expected(parts.error_code->0@, parts.error_message->0@, parts.content@);
                            state.phase = CallsPhase::Next;
                            state.resumed = None;
                            finish_call(records, &v, parts, None, Ghost(e))
                        },
                        _ => {
                            let arguments = run_arguments(&v, &state.resumed);
                            state.phase = CallsPhase::AwaitTool;
                            state.current = Some(v);
                            CallsAction::RunTool { arguments }
                        },
                    }
                },
            }
        },
        (CallsPhase::AwaitMiddleware, CallsEvent::Served { served }) => {
            let v = match state.current.take() {
                Some(v) => v,
                None => {
                    return CallsAction::Ignore;
                },
            };
            match served {
                Some(sv) => {
                    let ghost gs = sv;
                    let (error_code, error_message) = match &sv.error {
                        Some(e) => {
                            let (c, m) = parse_tool_error_string(e.as_str());
                            (Some(c), Some(m))
                        },
                        None => (None, None),
                    };
                    let status = if sv.error.is_some() {
                        owned("error")
                    } else {
                        owned("success")
                    };
                    let ServedCall { output, error, content } = sv;
                    let parts = ToolResultParts {
                        tool_name: v.tool_name.clone(),
                        call_id: call_id_text(&v),
                        output,
                        error,
                        error_code,
                        error_message,
                        status,
                        content,
                        content_blocks: None,
                    };
                    state.phase = CallsPhase::Next;
                    state.resumed = None;
                    finish_call(records, &v, parts, None, Ghost(served_expected(gs)))
                },
                None => {
                    let resumed = state.resumed.is_some();
                    if resumed && str_eq(v.tool_name.as_str(), "execute") && config.approval_policy {
                        state.phase = CallsPhase::AwaitVerdict;
                        state.current = Some(v);
                        CallsAction::AskApproval
                    } else {
                        let arguments = run_arguments(&v, &state.resumed);
                        state.phase = CallsPhase::AwaitTool;
                        state.current = Some(v);
                        CallsAction::RunTool { arguments }
                    }
                },
            }
        },
        (CallsPhase::AwaitTool, CallsEvent::ToolDone { run }) => {
            let v = match state.current.take() {
                Some(v) => v,
                None => {
                    return CallsAction::Ignore;
                },
            };
            let ghost gr = run;
            let ghost gres = state.resumed;
            let report = resumed_report(&v, &run, &state.resumed);
            let parts = run_parts(&v, run, &state.resumed);
            state.phase = CallsPhase::Next;
            state.resumed = None;
            finish_call(records, &v, parts, report, Ghost(run_expected(gr, gres)))
        },
        _ => CallsAction::Ignore,
    }
}

spec fn parts_error_view(n: NormalizedToolCall) -> Seq<char> {
    match n {
        NormalizedToolCall::Invalid { error, .. } => error@,
        _ => Seq::empty(),
    }
}

fn call_record(c: &AgentToolCall) -> (r: ToolCallRecord)
    ensures
        call_record_is(r, *c),
{
    ToolCallRecord { tool_name: c.tool_name.clone(), arguments: c.arguments.clone(), call_id: Some(call_id_text(c)) }
}

fn run_arguments(c: &AgentToolCall, resumed: &Option<ResumeInfo>) -> (r: serde_json::Value)
    ensures
        r == effective_args(*c, *resumed),
{
    match resumed {
        Some(info) => match &info.edited_args {
            Some(a) => a.clone(),
            None => c.arguments.clone(),
        },
        None => c.arguments.clone(),
    }
}

fn resumed_report(c: &AgentToolCall, run: &ToolRun, resumed: &Option<ResumeInfo>) -> (r: Option<ResumedReport>)
    ensures
        r == report_of(*c, *run, *resumed),
{
    match (run, resumed) {
        (ToolRun::Success { .. }, Some(info)) => Some(
            ResumedReport {
                edited: info.edited_args.is_some(),
                original_args: info.original_args.clone(),
                effective_args: run_arguments(c, resumed),
            },
        ),
        _ => None,
    }
}

fn run_parts(c: &AgentToolCall, run: ToolRun, resumed: &Option<ResumeInfo>) -> (r: ToolResultParts)
    ensures
        parts_expected(r, *c, run_expected(run, *resumed)),
{
    match run {
        ToolRun::Success { output, content, content_blocks } => {
            let status = match resumed {
                Some(info) => resumed_status(info.edited_args.is_some()),
                None => owned("success"),
            };
            ToolResultParts {
                tool_name: c.tool_name.clone(),
                call_id: call_id_text(c),
                output,
                error: None,
                error_code: None,
                error_message: None,
                status,
                content,
                content_blocks,
            }
        },
        ToolRun::Failed { code, message } => {
            let mut err = code.clone();
            push_str(&mut err, ": ");
            push_str(&mut err, message.as_str());
            ToolResultParts {
                tool_name: c.tool_name.clone(),
                call_id: call_id_text(c),
                output: json_null(),
                error: Some(err.clone()),
                error_code: Some(code),
                error_message: Some(message),
                status: owned("error"),
                content: err,
                content_blocks: None,
            }
        },
    }
}

/// A batch of calls ready to run, the counter at `next_call_id`.
pub fn start_calls(calls: Vec<AgentToolCall>, next_call_id: u64) -> (r: CallsState)
    ensures
        calls_wf(r),
        r.queue@ == calls@,
        r.todo_calls == todo_call_count(calls@),
        r.next_call_id == next_call_id,
        r.current is None,
        r.resumed is None,
        r.phase == CallsPhase::Next,
{
    let todo_calls = count_todo_calls(calls.as_slice());
    CallsState { queue: calls, todo_calls, next_call_id, current: None, resumed: None, phase: CallsPhase::Next }
}

/// A human's answer to the call held for them.
#[derive(Debug)]
pub enum ResumeChoice {
    Approve,
    Reject { reason: Option<String> },
    Edit { args: serde_json::Value },
}

/// The result of a rejected call: `tool_call_rejected` with the reason
/// (`rejected` when none is given), status `rejected`.
pub open spec fn rejected_expected(reason: Option<String>) -> ExpectedResult {
    let rs = match reason {
        Some(r) => r@,
        None => "rejected"@,
    };
    ExpectedResult {
        output: None,
        error: Some("tool_call_rejected: "@ + rs),
        error_code: Some("tool_call_rejected"@),
        error_message: Some(rs),
        status: "rejected"@,
        content: "tool_call_rejected: "@ + rs,
        blocks: None,
    }
}

/// Resumes a call that waited for a human, with the calls that waited
/// behind it: a rejection finishes the call with its rejection; an approval
/// or an edit makes it the call under way, offered to the middlewares, and
/// remembers the arguments it was proposed with and, for an edit, those it
/// runs with.
pub fn resume_calls(
    call: AgentToolCall,
    remaining: Vec<AgentToolCall>,
    choice: ResumeChoice,
    next_call_id: u64,
    records: &mut RunRecords,
) -> (r: (CallsState, CallsAction))
    ensures
        calls_wf(r.0),
        r.0.queue@ == remaining@,
        r.0.todo_calls == todo_call_count(remaining@),
        r.0.next_call_id == next_call_id,
        final(records).tool_calls == old(records).tool_calls,
        match choice {
            ResumeChoice::Reject { reason } => {
                &&& finished_with(*old(records), *final(records), r.1, call, rejected_expected(reason), None)
                &&& r.0.phase == CallsPhase::Next
                &&& r.0.current is None
                &&& r.0.resumed is None
            },
            ResumeChoice::Approve => {
                &&& records_kept(*old(records), *final(records))
                &&& r.0.phase == CallsPhase::AwaitMiddleware
                &&& r.0.current == Some(call)
                &&& r.0.resumed matches Some(info) && info.edited_args is None && info.original_args == call.arguments
                &&& r.1 is RunMiddlewares
            },
            ResumeChoice::Edit { args } => {
                &&& records_kept(*old(records), *final(records))
                &&& r.0.phase == CallsPhase::AwaitMiddleware
                &&& r.0.current == Some(call)
                &&& r.0.resumed matches Some(info) && info.edited_args == Some(args) && info.original_args == call.arguments
                &&& r.1 is RunMiddlewares
            },
        },
{
    let mut state = start_calls(remaining, next_call_id);
    match choice {
        ResumeChoice::Reject { reason } => {
            let ghost gr = reason;
            let rs = match &reason {
                Some(r) => r.clone(),
                None => owned("rejected"),
            };
            let mut err = owned("tool_call_rejected: ");
            push_str(&mut err, rs.as_str());
            let parts = ToolResultParts {
                tool_name: call.tool_name.clone(),
                call_id: call_id_text(&call),
                output: json_null(),
                error: Some(err.clone()),
                error_code: Some(owned("tool_call_rejected")),
                error_message: Some(rs),
                status: owned("rejected"),
                content: err,
                content_blocks: None,
            };
            let a = finish_call(records, &call, parts, None, Ghost(rejected_expected(gr)));
            (state, a)
        },
        ResumeChoice::Approve => {
            let original_args = call.arguments.clone();
            state.resumed = Some(ResumeInfo { edited_args: None, original_args });
            state.current = Some(call);
            state.phase = CallsPhase::AwaitMiddleware;
            (state, CallsAction::RunMiddlewares)
        },
        ResumeChoice::Edit { args } => {
            let original_args = call.arguments.clone();
            state.resumed = Some(ResumeInfo { edited_args: Some(args), original_args });
            state.current = Some(call);
            state.phase = CallsPhase::AwaitMiddleware;
            (state, CallsAction::RunMiddlewares)
        },
    }
}

} // verus!
