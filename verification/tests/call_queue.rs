use deepagents::provider::protocol::AgentToolCall;
use deepagents::runtime::call_policy::ApprovalVerdict;
use deepagents::runtime::call_queue::{
    calls_step, resume_calls, start_calls, CallsAction, CallsConfig, CallsEvent, CallsPhase, CallsState, ResumeChoice, ServedCall,
    ToolRun,
};
use deepagents::runtime::run_output::RunRecords;
use deepagents::state::AgentState;
use deepagents::types::Message;

fn j(text: &str) -> serde_json::Value {
    serde_json::from_str(text).unwrap()
}

fn call(name: &str, arguments: serde_json::Value, id: Option<&str>) -> AgentToolCall {
    AgentToolCall { tool_name: name.to_string(), arguments, call_id: id.map(|s| s.to_string()) }
}

fn records() -> RunRecords {
    RunRecords { interrupts: Vec::new(), tool_calls: Vec::new(), tool_results: Vec::new(), state: AgentState::new() }
}

fn config(approval_policy: bool, non_interactive: bool, interrupt_on: &[&str]) -> CallsConfig {
    CallsConfig { approval_policy, non_interactive, interrupt_on: interrupt_on.iter().map(|s| s.to_string()).collect() }
}

fn message_of(action: CallsAction) -> Message {
    match action {
        CallsAction::NextCall { message } => message,
        other => panic!("expected a finished call, got {:?}", other),
    }
}

fn body(m: &Message) -> serde_json::Value {
    serde_json::from_str(&m.content).unwrap()
}

fn step(s: &mut CallsState, r: &mut RunRecords, c: &CallsConfig, e: CallsEvent) -> CallsAction {
    calls_step(s, r, c, e)
}

#[test]
fn a_call_goes_through_middlewares_and_tool() {
    let cfg = config(false, false, &[]);
    let mut rec = records();
    let mut s = start_calls(vec![call("read_file", j(r#"{"file_path":"/a"}"#), Some("c1"))], 5);
    let a = step(&mut s, &mut rec, &cfg, CallsEvent::Next);
    assert!(matches!(a, CallsAction::RunMiddlewares));
    assert_eq!(rec.tool_calls.len(), 1);
    assert_eq!(rec.tool_calls[0].call_id.as_deref(), Some("c1"));
    let a = step(&mut s, &mut rec, &cfg, CallsEvent::Served { served: None });
    match a {
        CallsAction::RunTool { arguments } => assert_eq!(arguments, j(r#"{"file_path":"/a"}"#)),
        other => panic!("expected the tool to run, got {:?}", other),
    }
    let run = ToolRun::Success { output: j(r#"{"content":"hello"}"#), content: "hello".to_string(), content_blocks: None };
    let m = message_of(step(&mut s, &mut rec, &cfg, CallsEvent::ToolDone { run }));
    assert_eq!(m.role, "tool");
    assert_eq!(m.tool_call_id.as_deref(), Some("c1"));
    assert_eq!(m.name.as_deref(), Some("read_file"));
    assert_eq!(m.status.as_deref(), Some("success"));
    assert_eq!(
        body(&m),
        j(r#"{"tool_call_id":"c1","tool_name":"read_file","status":"success","output":{"content":"hello"},"error":null,"content":"hello"}"#)
    );
    assert_eq!(rec.tool_results.len(), 1);
    assert_eq!(rec.tool_results[0].status.as_deref(), Some("success"));
    assert_eq!(rec.tool_results[0].output, j(r#"{"content":"hello"}"#));
    assert!(matches!(step(&mut s, &mut rec, &cfg, CallsEvent::Next), CallsAction::Done));
    assert_eq!(s.phase, CallsPhase::Done);
    assert_eq!(s.next_call_id, 5);
}

#[test]
fn a_call_without_id_gets_one_from_the_counter() {
    let cfg = config(false, false, &[]);
    let mut rec = records();
    let mut s = start_calls(vec![call("ls", j("{}"), None)], 7);
    assert!(matches!(step(&mut s, &mut rec, &cfg, CallsEvent::Next), CallsAction::RunMiddlewares));
    assert_eq!(s.next_call_id, 8);
    assert_eq!(rec.tool_calls[0].call_id.as_deref(), Some("call-7"));
}

#[test]
fn an_invalid_call_is_answered_with_its_error() {
    let cfg = config(false, false, &[]);
    let mut rec = records();
    let mut s = start_calls(vec![call("ls", j("[1]"), Some("c2"))], 1);
    let m = message_of(step(&mut s, &mut rec, &cfg, CallsEvent::Next));
    assert_eq!(m.status.as_deref(), Some("error"));
    assert_eq!(
        body(&m),
        j(r#"{"tool_call_id":"c2","tool_name":"ls","status":"error","output":null,
              "error":{"code":"invalid_tool_call","message":"arguments must be object"},
              "content":"invalid_tool_call: arguments must be object"}"#)
    );
    assert_eq!(rec.tool_results[0].error_code.as_deref(), Some("invalid_tool_call"));
    assert_eq!(rec.tool_calls.len(), 1);
}

#[test]
fn parallel_todo_updates_are_refused() {
    let cfg = config(false, false, &[]);
    let mut rec = records();
    let mut s = start_calls(
        vec![call("write_todos", j(r#"{"todos":[]}"#), Some("t1")), call("write_todos", j(r#"{"todos":[]}"#), Some("t2"))],
        1,
    );
    assert_eq!(s.todo_calls, 2);
    let m = message_of(step(&mut s, &mut rec, &cfg, CallsEvent::Next));
    assert!(m.content.contains("should never be called multiple times in parallel"));
    assert_eq!(rec.tool_results[0].status.as_deref(), Some("error"));
    let m2 = message_of(step(&mut s, &mut rec, &cfg, CallsEvent::Next));
    assert_eq!(m2.tool_call_id.as_deref(), Some("t2"));
    assert_eq!(rec.tool_results.len(), 2);
}

#[test]
fn a_marked_tool_interrupts_with_the_calls_behind_it() {
    let cfg = config(false, false, &["write_file"]);
    let mut rec = records();
    let mut s = start_calls(
        vec![call("write_file", j(r#"{"file_path":"/x","content":"y"}"#), Some("w1")), call("ls", j("{}"), Some("l1"))],
        1,
    );
    match step(&mut s, &mut rec, &cfg, CallsEvent::Next) {
        CallsAction::Interrupt { interrupt, call, remaining } => {
            assert_eq!(interrupt.interrupt_id, "w1");
            assert_eq!(interrupt.tool_name, "write_file");
            assert_eq!(interrupt.proposed_args, j(r#"{"file_path":"/x","content":"y"}"#));
            assert_eq!(call.call_id.as_deref(), Some("w1"));
            assert_eq!(remaining.len(), 1);
            assert_eq!(remaining[0].tool_name, "ls");
        },
        other => panic!("expected an interrupt, got {:?}", other),
    }
    assert_eq!(s.phase, CallsPhase::Interrupted);
    assert_eq!(rec.tool_results.len(), 0);
}

#[test]
fn a_denied_command_is_answered_with_the_refusal() {
    let cfg = config(true, false, &[]);
    let mut rec = records();
    let mut s = start_calls(vec![call("execute", j(r#"{"command":"rm -rf /"}"#), Some("e1"))], 1);
    assert!(matches!(step(&mut s, &mut rec, &cfg, CallsEvent::Next), CallsAction::AskApproval));
    let verdict = Some(ApprovalVerdict::Deny { code: "dangerous".to_string(), reason: "no".to_string() });
    let m = message_of(step(&mut s, &mut rec, &cfg, CallsEvent::Verdict { verdict }));
    assert_eq!(m.status.as_deref(), Some("error"));
    assert_eq!(
        body(&m),
        j(r#"{"tool_call_id":"e1","tool_name":"execute","status":"error","output":null,
              "error":{"code":"dangerous","message":"no"},
              "content":"command_not_allowed: dangerous: no"}"#)
    );
}

#[test]
fn a_command_that_needs_approval_interrupts_or_is_refused_without_a_human() {
    let verdict = || Some(ApprovalVerdict::RequireApproval { code: "ask".to_string(), reason: "why".to_string() });
    let cfg = config(true, false, &[]);
    let mut rec = records();
    let mut s = start_calls(vec![call("execute", j(r#"{"command":"ls"}"#), Some("e2"))], 1);
    step(&mut s, &mut rec, &cfg, CallsEvent::Next);
    assert!(matches!(step(&mut s, &mut rec, &cfg, CallsEvent::Verdict { verdict: verdict() }), CallsAction::Interrupt { .. }));

    let cfg = config(true, true, &[]);
    let mut rec = records();
    let mut s = start_calls(vec![call("execute", j(r#"{"command":"ls"}"#), Some("e3"))], 1);
    step(&mut s, &mut rec, &cfg, CallsEvent::Next);
    let m = message_of(step(&mut s, &mut rec, &cfg, CallsEvent::Verdict { verdict: verdict() }));
    assert_eq!(rec.tool_results[0].error.as_deref(), Some("command_not_allowed: ask: why"));
    assert_eq!(m.status.as_deref(), Some("error"));
}

#[test]
fn a_middleware_serves_a_call() {
    let cfg = config(false, false, &[]);
    let mut rec = records();
    let mut s = start_calls(vec![call("skill_x", j("{}"), Some("s1"))], 1);
    step(&mut s, &mut rec, &cfg, CallsEvent::Next);
    let served = ServedCall { output: j(r#"{"ok":true}"#), error: None, content: "done".to_string() };
    let m = message_of(step(&mut s, &mut rec, &cfg, CallsEvent::Served { served: Some(served) }));
    assert_eq!(m.status.as_deref(), Some("success"));
    assert_eq!(rec.tool_results[0].output, j(r#"{"ok":true}"#));
    assert_eq!(body(&m)["content"], j(r#""done""#));
}

#[test]
fn a_failed_tool_is_recorded_as_an_error() {
    let cfg = config(false, false, &[]);
    let mut rec = records();
    let mut s = start_calls(vec![call("read_file", j(r#"{"file_path":"/none"}"#), Some("r1"))], 1);
    step(&mut s, &mut rec, &cfg, CallsEvent::Next);
    step(&mut s, &mut rec, &cfg, CallsEvent::Served { served: None });
    let run = ToolRun::Failed { code: "file_not_found".to_string(), message: "/none".to_string() };
    let m = message_of(step(&mut s, &mut rec, &cfg, CallsEvent::ToolDone { run }));
    assert!(m.content_blocks.is_none());
    assert_eq!(rec.tool_results[0].error.as_deref(), Some("file_not_found: /none"));
    assert_eq!(rec.tool_results[0].error_code.as_deref(), Some("file_not_found"));
    assert_eq!(rec.tool_results[0].error_message.as_deref(), Some("/none"));
    assert_eq!(body(&m)["error"], j(r#"{"code":"file_not_found","message":"/none"}"#));
}

#[test]
fn an_event_that_does_not_fit_changes_nothing() {
    let cfg = config(false, false, &[]);
    let mut rec = records();
    let mut s = start_calls(vec![call("ls", j("{}"), Some("x"))], 1);
    assert!(matches!(step(&mut s, &mut rec, &cfg, CallsEvent::Served { served: None }), CallsAction::Ignore));
    assert_eq!(s.phase, CallsPhase::Next);
    assert_eq!(s.queue.len(), 1);
    assert_eq!(rec.tool_calls.len(), 0);
}

#[test]
fn a_rejected_call_is_answered_and_the_queue_goes_on() {
    let mut rec = records();
    let held = call("write_file", j(r#"{"file_path":"/x"}"#), Some("w1"));
    let (mut s, a) =
        resume_calls(held, vec![call("ls", j("{}"), Some("l1"))], ResumeChoice::Reject { reason: None }, 3, &mut rec);
    let m = message_of(a);
    assert_eq!(m.status.as_deref(), Some("rejected"));
    assert_eq!(rec.tool_results[0].error.as_deref(), Some("tool_call_rejected: rejected"));
    assert_eq!(rec.tool_results[0].error_code.as_deref(), Some("tool_call_rejected"));
    assert_eq!(rec.tool_calls.len(), 0);
    let cfg = config(false, false, &[]);
    assert!(matches!(step(&mut s, &mut rec, &cfg, CallsEvent::Next), CallsAction::RunMiddlewares));
    assert_eq!(rec.tool_calls[0].tool_name, "ls");

    let mut rec = records();
    let held = call("write_file", j("{}"), Some("w2"));
    let (_, a) = resume_calls(held, Vec::new(), ResumeChoice::Reject { reason: Some("not now".to_string()) }, 3, &mut rec);
    assert_eq!(body(&message_of(a))["content"], j(r#""tool_call_rejected: not now""#));
}

#[test]
fn an_edited_call_runs_with_the_new_arguments_and_reports_the_edit() {
    let cfg = config(false, false, &["write_file"]);
    let mut rec = records();
    let held = call("write_file", j(r#"{"file_path":"/x","content":"a"}"#), Some("w1"));
    let edit = ResumeChoice::Edit { args: j(r#"{"file_path":"/y","content":"b"}"#) };
    let (mut s, a) = resume_calls(held, Vec::new(), edit, 3, &mut rec);
    assert!(matches!(a, CallsAction::RunMiddlewares));
    match step(&mut s, &mut rec, &cfg, CallsEvent::Served { served: None }) {
        CallsAction::RunTool { arguments } => assert_eq!(arguments, j(r#"{"file_path":"/y","content":"b"}"#)),
        other => panic!("expected the tool to run, got {:?}", other),
    }
    let run = ToolRun::Success { output: j(r#"{"written":true}"#), content: "ok".to_string(), content_blocks: None };
    let m = message_of(step(&mut s, &mut rec, &cfg, CallsEvent::ToolDone { run }));
    assert_eq!(m.status.as_deref(), Some("edited"));
    assert_eq!(
        body(&m),
        j(r#"{"tool_call_id":"w1","tool_name":"write_file","status":"edited","output":{"written":true},"content":"ok",
              "edited":true,"original_args":{"file_path":"/x","content":"a"},
              "effective_args":{"file_path":"/y","content":"b"}}"#)
    );
    assert!(matches!(step(&mut s, &mut rec, &cfg, CallsEvent::Next), CallsAction::Done));
}

#[test]
fn an_approved_call_runs_with_its_arguments() {
    let cfg = config(false, false, &["write_file"]);
    let mut rec = records();
    let held = call("write_file", j(r#"{"file_path":"/x"}"#), Some("w1"));
    let (mut s, _) = resume_calls(held, Vec::new(), ResumeChoice::Approve, 3, &mut rec);
    match step(&mut s, &mut rec, &cfg, CallsEvent::Served { served: None }) {
        CallsAction::RunTool { arguments } => assert_eq!(arguments, j(r#"{"file_path":"/x"}"#)),
        other => panic!("expected the tool to run, got {:?}", other),
    }
    let run = ToolRun::Success { output: j("{}"), content: "ok".to_string(), content_blocks: None };
    let m = message_of(step(&mut s, &mut rec, &cfg, CallsEvent::ToolDone { run }));
    assert_eq!(m.status.as_deref(), Some("success"));
    assert_eq!(
        body(&m),
        j(r#"{"tool_call_id":"w1","tool_name":"write_file","status":"success","output":{},"content":"ok"}"#)
    );
}
