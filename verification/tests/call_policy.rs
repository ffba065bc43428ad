use deepagents::provider::protocol::AgentToolCall;
use deepagents::runtime::call_policy::{
    call_disposition, count_todo_calls, pending_call_disposition, resumed_status, ApprovalVerdict, CallDisposition,
};

fn call(name: &str) -> AgentToolCall {
    AgentToolCall { tool_name: name.to_string(), arguments: serde_json::Value::Null, call_id: None }
}

#[test]
fn call_policy_counts_todo_calls() {
    let calls = vec![call("write_todos"), call("ls"), call("write_todos")];
    assert_eq!(count_todo_calls(&calls), 2);
    assert_eq!(count_todo_calls(&[]), 0);
}

#[test]
fn call_policy_orders_its_checks() {
    assert!(matches!(call_disposition(false, "write_todos", 2, &None, false, true), CallDisposition::Invalid));
    match call_disposition(true, "write_todos", 2, &None, false, true) {
        CallDisposition::ParallelTodos { error } => assert!(error.starts_with("Error: The `write_todos` tool should never")),
        other => panic!("unexpected {:?}", other),
    }
    assert!(matches!(call_disposition(true, "write_todos", 1, &None, false, false), CallDisposition::Proceed));
    let deny = Some(ApprovalVerdict::Deny { code: "blocked".to_string(), reason: "rm is not allowed".to_string() });
    match call_disposition(true, "execute", 0, &deny, false, false) {
        CallDisposition::NotAllowed { code, reason, error } => {
            assert_eq!(code, "blocked");
            assert_eq!(reason, "rm is not allowed");
            assert_eq!(error, "command_not_allowed: blocked: rm is not allowed");
        },
        other => panic!("unexpected {:?}", other),
    }
    let ask = Some(ApprovalVerdict::RequireApproval { code: "ask".to_string(), reason: "network".to_string() });
    assert!(matches!(call_disposition(true, "execute", 0, &ask, false, false), CallDisposition::Interrupt));
    match call_disposition(true, "execute", 0, &ask, true, false) {
        CallDisposition::NotAllowed { error, .. } => assert_eq!(error, "command_not_allowed: ask: network"),
        other => panic!("unexpected {:?}", other),
    }
    assert!(matches!(call_disposition(true, "execute", 0, &Some(ApprovalVerdict::Allow), false, false), CallDisposition::Proceed));
    assert!(matches!(call_disposition(true, "execute", 0, &Some(ApprovalVerdict::Allow), false, true), CallDisposition::Interrupt));
    assert!(matches!(call_disposition(true, "ls", 0, &deny, false, false), CallDisposition::Proceed));
}

#[test]
fn call_policy_resumed_calls() {
    let ask = Some(ApprovalVerdict::RequireApproval { code: "ask".to_string(), reason: "why".to_string() });
    assert!(matches!(pending_call_disposition("execute", &ask, true), CallDisposition::Proceed));
    match pending_call_disposition("execute", &ask, false) {
        CallDisposition::NotAllowed { error, .. } => assert_eq!(error, "command_not_allowed: ask: why"),
        other => panic!("unexpected {:?}", other),
    }
    let deny = Some(ApprovalVerdict::Deny { code: "no".to_string(), reason: "never".to_string() });
    assert!(matches!(pending_call_disposition("execute", &deny, true), CallDisposition::NotAllowed { .. }));
    assert!(matches!(pending_call_disposition("write_file", &deny, false), CallDisposition::Proceed));
    assert_eq!(resumed_status(true), "edited");
    assert_eq!(resumed_status(false), "success");
}
