//! Making a model's tool call fit to run: a name, an id and object
//! arguments, or the reason it cannot run.
use vstd::prelude::*;

use crate::json::{JsonKind, json_as_string, json_empty_object, json_kind, json_kind_of, json_parse, json_parsed, json_str_of};
use crate::provider::protocol::{AgentToolCall, normalized_name};
use crate::text::{decimal, is_blank, owned, push_str, str_is_blank, u64_to_decimal};
use crate::types::opt_str_view;

verus! {

/// A tool call ready to run, or one that cannot run and why.
#[derive(Debug)]
pub enum NormalizedToolCall {
    Valid(AgentToolCall),
    Invalid { call: AgentToolCall, error: String },
}

/// The call comes without a usable id: none, or a blank one.
pub open spec fn needs_call_id(c: AgentToolCall) -> bool {
    match c.call_id {
        None => true,
        Some(id) => is_blank(id@),
    }
}

/// `r` is `c` with its name and id normalized and the given arguments: a
/// blank name becomes `unknown`; a missing or blank id becomes `call-<next>`.
pub open spec fn renamed_call(c: AgentToolCall, next: nat, r: AgentToolCall, arguments: serde_json::Value) -> bool {
    &&& r.tool_name@ == normalized_name(c.tool_name@)
    &&& if needs_call_id(c) {
        opt_str_view(r.call_id) == Some("call-"@ + decimal(next))
    } else {
        r.call_id == c.call_id
    }
    &&& r.arguments == arguments
}

/// What normalizing makes of a call, the counter at `next`: object
/// arguments pass, `null` becomes `{}`, a string holding a JSON object is
/// replaced by the object; other arguments make the call invalid, with the
/// reason.
pub open spec fn normalized_for_execution(c: AgentToolCall, next: nat, r: NormalizedToolCall) -> bool {
    match json_kind_of(c.arguments) {
        JsonKind::Object => r matches NormalizedToolCall::Valid(v) && renamed_call(c, next, v, c.arguments),
        JsonKind::Null => r matches NormalizedToolCall::Valid(v) && renamed_call(c, next, v, v.arguments)
            && json_kind_of(v.arguments) == JsonKind::Object,
        JsonKind::String => match json_parsed(json_str_of(c.arguments)) {
            Some(p) => if json_kind_of(p) == JsonKind::Object {
                r matches NormalizedToolCall::Valid(v) && renamed_call(c, next, v, p)
            } else {
                r matches NormalizedToolCall::Invalid { call, error } && renamed_call(c, next, call, c.arguments)
                    && error@ == "invalid_tool_call: arguments must be JSON object"@
            },
            None => r matches NormalizedToolCall::Invalid { call, error } && renamed_call(c, next, call, c.arguments)
                && error@ == "invalid_tool_call: arguments must be JSON object string"@,
        },
        _ => r matches NormalizedToolCall::Invalid { call, error } && renamed_call(c, next, call, c.arguments)
            && error@ == "invalid_tool_call: arguments must be object"@,
    }
}

/// Prepares a tool call to run; the counter numbers the ids it makes up.
pub fn normalize_tool_call_for_execution(call: AgentToolCall, next_call_id: &mut u64) -> (r: NormalizedToolCall)
    requires
        *old(next_call_id) < u64::MAX,
    ensures
        normalized_for_execution(call, *old(next_call_id) as nat, r),
        *final(next_call_id) == *old(next_call_id) + if needs_call_id(call) {
            1int
        } else {
            0int
        },
{
    let AgentToolCall { tool_name, arguments, call_id } = call;
    let tool_name = if str_is_blank(tool_name.as_str()) {
        owned("unknown")
    } else {
        tool_name
    };
    let need_id = match &call_id {
        None => true,
        Some(id) => str_is_blank(id.as_str()),
    };
    let call_id = if need_id {
        let mut id = owned("call-");
        let n = u64_to_decimal(*next_call_id);
        push_str(&mut id, n.as_str());
        *next_call_id = *next_call_id + 1;
        Some(id)
    } else {
        call_id
    };
    match json_kind(&arguments) {
        JsonKind::Object => NormalizedToolCall::Valid(AgentToolCall { tool_name, arguments, call_id }),
        JsonKind::Null => NormalizedToolCall::Valid(AgentToolCall { tool_name, arguments: json_empty_object(), call_id }),
        JsonKind::String => {
            let text = json_as_string(&arguments).unwrap();
            match json_parse(text.as_str()) {
                Ok(v) => {
                    if json_kind(&v) == JsonKind::Object {
                        NormalizedToolCall::Valid(AgentToolCall { tool_name, arguments: v, call_id })
                    } else {
                        NormalizedToolCall::Invalid {
                            call: AgentToolCall { tool_name, arguments, call_id },
                            error: owned("invalid_tool_call: arguments must be JSON object"),
                        }
                    }
                },
                Err(_) => NormalizedToolCall::Invalid {
                    call: AgentToolCall { tool_name, arguments, call_id },
                    error: owned("invalid_tool_call: arguments must be JSON object string"),
                },
            }
        },
        _ => NormalizedToolCall::Invalid {
            call: AgentToolCall { tool_name, arguments, call_id },
            error: owned("invalid_tool_call: arguments must be object"),
        },
    }
}

} // verus!
