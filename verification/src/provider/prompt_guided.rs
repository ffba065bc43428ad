//! Tool calling for models without native tool calls: the tools are
//! described in a system message, and the model answers with a tagged JSON
//! payload that is checked against the tool choice.
use vstd::prelude::*;

use crate::json::{json_text_of, json_to_text};
use crate::provider::llm::ToolChoice;
use crate::provider::protocol::{AgentStep, AgentToolCall};
use crate::runtime::protocol::ToolSpec;
use crate::text::{
    chars_occur_at, chars_trim_bounds, ends_with, from_chars, is_blank, joined, join, owned,
    push_str, slice_range, starts_with, str_eq, str_is_blank, str_trim, to_chars, trim,
};
use crate::types::{Message, MessageView, messages_view};

verus! {

/// The tag that opens a tool-call payload.
pub open spec fn open_tag() -> Seq<char> {
    "<tool_call>"@
}

/// The tag that closes a tool-call payload.
pub open spec fn close_tag() -> Seq<char> {
    "</tool_call>"@
}

/// The payload of a reply that is, once trimmed, a tagged tool-call payload:
/// the trimmed text between the tags, where it is not empty.
pub open spec fn tool_payload_of(text: Seq<char>) -> Option<Seq<char>> {
    let s = trim(text);
    let o = open_tag().len() as int;
    if starts_with(s, open_tag()) && ends_with(s.skip(o), close_tag()) {
        let p = trim(s.subrange(o, s.len() - close_tag().len()));
        if p.len() == 0 {
            None
        } else {
            Some(p)
        }
    } else {
        None
    }
}

/// Extracts the tool-call payload of a reply.
pub fn extract_tool_payload(text: &str) -> (r: Option<String>)
    ensures
        r matches Some(p) ==> tool_payload_of(text@) == Some(p@),
        r is None ==> tool_payload_of(text@) is None,
{
    let raw = to_chars(text);
    let (a, b) = chars_trim_bounds(&raw);
    let cs = slice_range(&raw, a, b);
    let o = to_chars("<tool_call>");
    let c = to_chars("</tool_call>");
    if !chars_occur_at(&cs, &o, 0) {
        return None;
    }
    let rest = slice_range(&cs, o.len(), cs.len());
    assert(rest@ =~= cs@.skip(o.len() as int));
    if c.len() > rest.len() || !chars_occur_at(&rest, &c, rest.len() - c.len()) {
        return None;
    }
    let inner = slice_range(&cs, o.len(), cs.len() - c.len());
    let (x, y) = chars_trim_bounds(&inner);
    if x == y {
        return None;
    }
    let p = slice_range(&inner, x, y);
    Some(from_chars(&p))
}

/// The error text of a tool-choice rule.
pub open spec fn call_required_error() -> Seq<char> {
    "prompt_guided_tool_call_required"@
}

pub open spec fn named_required_error(name: Seq<char>) -> Seq<char> {
    "prompt_guided_named_tool_required: "@ + name
}

pub open spec fn named_mismatch_error(name: Seq<char>, got: Seq<char>) -> Seq<char> {
    "prompt_guided_named_tool_mismatch: expected "@ + name + ", got "@ + got
}

pub open spec fn unknown_tool_error(got: Seq<char>) -> Seq<char> {
    "prompt_guided_unknown_tool: "@ + got
}

/// The error, if any, of answering in plain text under a tool choice.
pub open spec fn plain_text_error(choice: ToolChoice) -> Option<Seq<char>> {
    match choice {
        ToolChoice::Auto | ToolChoice::NoTools => None,
        ToolChoice::Required => Some(call_required_error()),
        ToolChoice::Named { name } => Some(named_required_error(name@)),
    }
}

/// The names of the calls.
pub open spec fn call_names(calls: Seq<AgentToolCall>) -> Seq<Seq<char>> {
    calls.map_values(|c: AgentToolCall| c.tool_name@)
}

/// The names of the tools.
pub open spec fn spec_names(specs: Seq<ToolSpec>) -> Seq<Seq<char>> {
    specs.map_values(|t: ToolSpec| t.name@)
}

/// The first name that differs from `name`.
pub open spec fn first_other(names: Seq<Seq<char>>, name: Seq<char>) -> Option<Seq<char>>
    decreases names.len(),
{
    if names.len() == 0 {
        None
    } else if names[0] != name {
        Some(names[0])
    } else {
        first_other(names.drop_first(), name)
    }
}

/// The first name that is not among the known ones.
pub open spec fn first_unknown(names: Seq<Seq<char>>, known: Seq<Seq<char>>) -> Option<Seq<char>>
    decreases names.len(),
{
    if names.len() == 0 {
        None
    } else if !known.contains(names[0]) {
        Some(names[0])
    } else {
        first_unknown(names.drop_first(), known)
    }
}

/// The error, if any, of a list of calls under the rules of a tool choice.
pub open spec fn choice_calls_error(choice: ToolChoice, names: Seq<Seq<char>>) -> Option<Seq<char>> {
    match choice {
        ToolChoice::Auto | ToolChoice::NoTools => None,
        ToolChoice::Required => if names.len() == 0 {
            Some(call_required_error())
        } else {
            None
        },
        ToolChoice::Named { name } => if names.len() == 0 {
            Some(named_required_error(name@))
        } else {
            match first_other(names, name@) {
                Some(got) => Some(named_mismatch_error(name@, got)),
                None => None,
            }
        },
    }
}

/// The error, if any, of a list of calls under a tool choice and a set of
/// tools: the rules of the choice first, then every call must name a known
/// tool.
pub open spec fn calls_error(choice: ToolChoice, known: Seq<Seq<char>>, names: Seq<Seq<char>>) -> Option<Seq<char>> {
    match choice_calls_error(choice, names) {
        Some(e) => Some(e),
        None => match first_unknown(names, known) {
            Some(got) => Some(unknown_tool_error(got)),
            None => None,
        },
    }
}

/// The error, if any, of offering a tool choice with a set of tools.
pub open spec fn choice_error(choice: ToolChoice, known: Seq<Seq<char>>) -> Option<Seq<char>> {
    match choice {
        ToolChoice::Auto | ToolChoice::NoTools => None,
        ToolChoice::Required => if known.len() == 0 {
            Some("prompt_guided_tool_choice_without_tools"@)
        } else {
            None
        },
        ToolChoice::Named { name } => if !known.contains(name@) {
            Some("prompt_guided_unknown_tool_choice: "@ + name@)
        } else {
            None
        },
    }
}

/// Checks that a tool choice can be met with the tools offered.
pub fn validate_prompt_guided_tool_choice(tool_choice: &ToolChoice, tool_specs: &[ToolSpec]) -> (r: Result<(), String>)
    ensures
        r matches Err(e) ==> choice_error(*tool_choice, spec_names(tool_specs@)) == Some(e@),
        r is Ok ==> choice_error(*tool_choice, spec_names(tool_specs@)) is None,
{
    match tool_choice {
        ToolChoice::Auto | ToolChoice::NoTools => Ok(()),
        ToolChoice::Required => {
            if tool_specs.len() == 0 {
                Err(owned("prompt_guided_tool_choice_without_tools"))
            } else {
                Ok(())
            }
        },
        ToolChoice::Named { name } => {
            if !has_tool(tool_specs, name.as_str()) {
                let mut e = owned("prompt_guided_unknown_tool_choice: ");
                push_str(&mut e, name.as_str());
                Err(e)
            } else {
                Ok(())
            }
        },
    }
}

/// Whether a tool of that name is offered.
fn has_tool(tool_specs: &[ToolSpec], name: &str) -> (r: bool)
    ensures
        r == spec_names(tool_specs@).contains(name@),
{
    let ghost names = spec_names(tool_specs@);
    let mut i: usize = 0;
    while i < tool_specs.len()
        invariant
            i <= tool_specs.len(),
            names == spec_names(tool_specs@),
            forall|k: int| 0 <= k < i ==> names[k] != name@,
        decreases tool_specs.len() - i,
    {
        if str_eq(tool_specs[i].name.as_str(), name) {
            assert(names[i as int] == name@);
            return true;
        }
        i = i + 1;
    }
    false
}

/// The JSON payload of a tool-call reply, read into values.
#[derive(Debug)]
pub struct PromptGuidedEnvelope {
    pub content: String,
    pub tool_calls: Vec<AgentToolCall>,
}

/// The tagged payload of a step's text, for text steps.
pub open spec fn step_payload(step: AgentStep) -> Option<Seq<char>> {
    match step {
        AgentStep::FinalText { text } => tool_payload_of(text@),
        AgentStep::AssistantMessage { text } => tool_payload_of(text@),
        _ => None,
    }
}

/// The text step a text gives: a final answer or an intermediate message.
pub open spec fn text_step(text: String, final_text: bool) -> AgentStep {
    if final_text {
        AgentStep::FinalText { text }
    } else {
        AgentStep::AssistantMessage { text }
    }
}

/// What a text reply becomes, given the payload as read from JSON where
/// the reply has one.
pub open spec fn text_step_result(
    choice: ToolChoice,
    known: Seq<Seq<char>>,
    text: String,
    final_text: bool,
    parsed: Option<Result<PromptGuidedEnvelope, String>>,
) -> Result<AgentStep, Seq<char>> {
    match parsed {
        None => match plain_text_error(choice) {
            Some(e) => Err(e),
            None => Ok(text_step(text, final_text)),
        },
        Some(Err(e)) => Err("prompt_guided_invalid_response_json: "@ + e@),
        Some(Ok(env)) => if is_blank(env.content@) && env.tool_calls@.len() == 0 {
            Err("prompt_guided_empty_response"@)
        } else {
            match calls_error(choice, known, call_names(env.tool_calls@)) {
                Some(e) => Err(e),
                None => if env.tool_calls@.len() == 0 {
                    match plain_text_error(choice) {
                        Some(e) => Err(e),
                        None => Ok(text_step(env.content, final_text)),
                    }
                } else if is_blank(env.content@) {
                    Ok(AgentStep::ToolCalls { calls: env.tool_calls })
                } else {
                    Ok(AgentStep::AssistantMessageWithToolCalls { text: env.content, calls: env.tool_calls })
                },
            }
        },
    }
}

/// What a step becomes under the fallback contract.
pub open spec fn step_result(
    choice: ToolChoice,
    known: Seq<Seq<char>>,
    step: AgentStep,
    parsed: Option<Result<PromptGuidedEnvelope, String>>,
) -> Result<AgentStep, Seq<char>> {
    match step {
        AgentStep::FinalText { text } => text_step_result(choice, known, text, true, parsed),
        AgentStep::AssistantMessage { text } => text_step_result(choice, known, text, false, parsed),
        AgentStep::AssistantMessageWithToolCalls { text, calls } => match calls_error(choice, known, call_names(calls@)) {
            Some(e) => Err(e),
            None => Ok(AgentStep::AssistantMessageWithToolCalls { text, calls }),
        },
        AgentStep::ToolCalls { calls } => match calls_error(choice, known, call_names(calls@)) {
            Some(e) => Err(e),
            None => Ok(AgentStep::ToolCalls { calls }),
        },
        other => Ok(other),
    }
}

/// The tool-call payload of a step, where a text step carries one; its
/// JSON is what `parse_step` takes read.
pub fn step_tool_payload(step: &AgentStep) -> (r: Option<String>)
    ensures
        r matches Some(p) ==> step_payload(*step) == Some(p@),
        r is None ==> step_payload(*step) is None,
{
    match step {
        AgentStep::FinalText { text } => extract_tool_payload(text.as_str()),
        AgentStep::AssistantMessage { text } => extract_tool_payload(text.as_str()),
        _ => None,
    }
}

/// The settings of the fallback contract: the tool choice and the tools.
#[derive(Debug, Clone)]
pub struct PromptGuidedConfig {
    pub tool_choice: ToolChoice,
    pub tool_specs: Vec<ToolSpec>,
}

/// The system message of the contract.
pub open spec fn contract_text() -> Seq<char> {
    "If you want to call tools, reply with nothing except:\n<tool_call>\n{\"content\":\"optional assistant text\",\"tool_calls\":[{\"name\":\"tool_name\",\"arguments\":{},\"id\":\"optional-call-id\"}]}\n</tool_call>\nDo not wrap this payload in markdown fences."@
}

/// What the message says of the tool choice.
pub open spec fn choice_rules(choice: ToolChoice) -> Seq<char> {
    match choice {
        ToolChoice::Auto => "You may either answer normally with plain text or emit the tagged JSON payload when a tool is needed."@,
        ToolChoice::NoTools => "Tools are disabled for this request. Reply with plain assistant text only."@,
        ToolChoice::Required => "You must emit the tagged JSON payload with at least one tool call. Do not answer with plain text only."@,
        ToolChoice::Named { name } => "You must emit the tagged JSON payload with at least one tool call, and every tool call name must be `"@
            + name@ + "`."@,
    }
}

/// The catalog line of one tool, its schema as the compact text
/// `serde_json` writes.
pub open spec fn catalog_line(t: ToolSpec) -> Seq<char> {
    "- "@ + t.name@ + ": "@ + t.description@ + "\n  input_schema: "@ + json_text_of(t.input_schema)
}

/// The catalog lines of the tools.
pub open spec fn catalog_lines(specs: Seq<ToolSpec>) -> Seq<Seq<char>> {
    seq!["Available tools:"@] + Seq::new(specs.len(), |i: int| catalog_line(specs[i]))
}

/// The sections of the system message.
pub open spec fn system_sections(choice: ToolChoice, extra: Seq<char>, catalog: Seq<char>) -> Seq<Seq<char>> {
    let head = seq!["Tool calling fallback contract:"@];
    let head = if is_blank(extra) {
        head
    } else {
        head.push(trim(extra))
    };
    head.push(contract_text()).push(choice_rules(choice)).push(catalog)
}

/// The system message: the sections joined by blank lines, the catalog one
/// line per entry.
pub open spec fn system_text(choice: ToolChoice, specs: Seq<ToolSpec>, extra: Seq<char>) -> Seq<char> {
    let catalog = joined(catalog_lines(specs), "\n"@);
    joined(system_sections(choice, extra, catalog), "\n\n"@)
}

/// The number of leading system messages.
pub open spec fn leading_system(ms: Seq<MessageView>) -> nat
    decreases ms.len(),
{
    if ms.len() > 0 && ms[0].role == "system"@ {
        1 + leading_system(ms.drop_first())
    } else {
        0
    }
}

fn render_tool_choice_rules(tool_choice: &ToolChoice) -> (r: String)
    ensures
        r@ == choice_rules(*tool_choice),
{
    match tool_choice {
        ToolChoice::Auto => owned(
            "You may either answer normally with plain text or emit the tagged JSON payload when a tool is needed.",
        ),
        ToolChoice::NoTools => owned("Tools are disabled for this request. Reply with plain assistant text only."),
        ToolChoice::Required => owned(
            "You must emit the tagged JSON payload with at least one tool call. Do not answer with plain text only.",
        ),
        ToolChoice::Named { name } => {
            let mut s = owned(
                "You must emit the tagged JSON payload with at least one tool call, and every tool call name must be `",
            );
            push_str(&mut s, name.as_str());
            push_str(&mut s, "`.");
            s
        },
    }
}

/// The catalog of the tools, one entry per tool.
fn render_tool_catalog(tool_specs: &[ToolSpec]) -> (r: String)
    ensures
        r@ == joined(catalog_lines(tool_specs@), "\n"@),
{
    let mut lines: Vec<String> = Vec::new();
    lines.push(owned("Available tools:"));
    let mut i: usize = 0;
    while i < tool_specs.len()
        invariant
            i <= tool_specs.len(),
            lines@.map_values(|t: String| t@) == catalog_lines(tool_specs@.take(i as int)),
        decreases tool_specs.len() - i,
    {
        let t = &tool_specs[i];
        let schema = match json_to_text(&t.input_schema) {
            Some(s) => s,
            None => owned("{\"type\":\"object\"}"),
        };
        let mut line = owned("- ");
        push_str(&mut line, t.name.as_str());
        push_str(&mut line, ": ");
        push_str(&mut line, t.description.as_str());
        push_str(&mut line, "\n  input_schema: ");
        push_str(&mut line, schema.as_str());
        let ghost prev = lines@.map_values(|t: String| t@);
        let ghost lv = line@;
        lines.push(line);
        proof {
            assert(lv == catalog_line(tool_specs@[i as int]));
            assert(catalog_lines(tool_specs@.take(i as int + 1)) =~= catalog_lines(tool_specs@.take(i as int)).push(lv));
            assert(lines@.map_values(|t: String| t@) =~= prev.push(lv));
        }
        i = i + 1;
    }
    assert(tool_specs@.take(tool_specs.len() as int) =~= tool_specs@);
    join(&lines, "\n")
}

impl PromptGuidedConfig {
    pub fn new(tool_choice: ToolChoice, tool_specs: Vec<ToolSpec>) -> (r: Self)
        ensures
            r.tool_choice == tool_choice,
            r.tool_specs == tool_specs,
    {
        PromptGuidedConfig { tool_choice, tool_specs }
    }

    /// The names of the tools offered.
    pub open spec fn known(&self) -> Seq<Seq<char>> {
        spec_names(self.tool_specs@)
    }

    /// The system message that states the contract: the header, the extra
    /// instructions where they are not blank, the payload format, the rule
    /// of the tool choice and the catalog of tools, separated by blank lines.
    pub fn render_system_message(&self, extra_instructions: &str) -> (r: String)
        ensures
            r@ == system_text(self.tool_choice, self.tool_specs@, extra_instructions@),
    {
        let mut sections: Vec<String> = Vec::new();
        sections.push(owned("Tool calling fallback contract:"));
        if !str_is_blank(extra_instructions) {
            sections.push(str_trim(extra_instructions));
        }
        sections.push(owned(
            "If you want to call tools, reply with nothing except:\n<tool_call>\n{\"content\":\"optional assistant text\",\"tool_calls\":[{\"name\":\"tool_name\",\"arguments\":{},\"id\":\"optional-call-id\"}]}\n</tool_call>\nDo not wrap this payload in markdown fences.",
        ));
        sections.push(render_tool_choice_rules(&self.tool_choice));
        let catalog = render_tool_catalog(self.tool_specs.as_slice());
        sections.push(catalog);
        let r = join(&sections, "\n\n");
        assert(sections@.map_values(|t: String| t@) =~= system_sections(self.tool_choice, extra_instructions@, catalog@));
        assert(r@ == system_text(self.tool_choice, self.tool_specs@, extra_instructions@));
        r
    }

    /// Puts the contract's system message after the leading system messages.
    pub fn prepare_messages(&self, messages: Vec<Message>, extra_instructions: &str) -> (r: Vec<Message>)
        ensures
            ({
                let idx = leading_system(messages_view(messages@)) as int;
                &&& r@.len() == messages@.len() + 1
                &&& messages_view(r@.remove(idx)) == messages_view(messages@)
                &&& r@[idx].role@ == "system"@
                &&& r@[idx].content_blocks is None
                &&& r@[idx].tool_calls is None
                &&& r@[idx].tool_call_id is None
                &&& r@[idx].content@ == system_text(self.tool_choice, self.tool_specs@, extra_instructions@)
            }),
    {
        let content = self.render_system_message(extra_instructions);
        let ghost mv = messages_view(messages@);
        assert(mv.skip(0) =~= mv);
        let mut idx: usize = 0;
        while idx < messages.len() && str_eq(messages[idx].role.as_str(), "system")
            invariant
                idx <= messages.len(),
                mv == messages_view(messages@),
                leading_system(mv) == idx + leading_system(mv.skip(idx as int)),
            decreases messages.len() - idx,
        {
            assert(mv.skip(idx as int).drop_first() =~= mv.skip(idx as int + 1));
            idx = idx + 1;
        }
        proof {
            let t = mv.skip(idx as int);
            if idx < messages.len() {
                assert(t[0] == mv[idx as int]);
            }
            assert(leading_system(t) == 0);
        }
        let mut out = messages;
        let sys = Message::text("system", content.as_str());
        out.insert(idx, sys);
        assert(messages_view(out@.remove(idx as int)) =~= mv);
        out
    }

    /// The error, if any, of answering in plain text.
    pub fn ensure_plain_text_allowed(&self) -> (r: Result<(), String>)
        ensures
            r matches Err(e) ==> plain_text_error(self.tool_choice) == Some(e@),
            r is Ok ==> plain_text_error(self.tool_choice) is None,
    {
        match &self.tool_choice {
            ToolChoice::Auto | ToolChoice::NoTools => Ok(()),
            ToolChoice::Required => Err(owned("prompt_guided_tool_call_required")),
            ToolChoice::Named { name } => {
                let mut e = owned("prompt_guided_named_tool_required: ");
                push_str(&mut e, name.as_str());
                Err(e)
            },
        }
    }

    /// Checks calls against the rules of the tool choice.
    fn check_choice_rules(&self, calls: &[AgentToolCall]) -> (r: Result<(), String>)
        ensures
            r matches Err(e) ==> choice_calls_error(self.tool_choice, call_names(calls@)) == Some(e@),
            r is Ok ==> choice_calls_error(self.tool_choice, call_names(calls@)) is None,
    {
        let ghost names = call_names(calls@);
        match &self.tool_choice {
            ToolChoice::Auto | ToolChoice::NoTools => Ok(()),
            ToolChoice::Required => {
                if calls.len() == 0 {
                    Err(owned("prompt_guided_tool_call_required"))
                } else {
                    Ok(())
                }
            },
            ToolChoice::Named { name } => {
                if calls.len() == 0 {
                    let mut e = owned("prompt_guided_named_tool_required: ");
                    push_str(&mut e, name.as_str());
                    return Err(e);
                }
                assert(names.skip(0) =~= names);
                let mut i: usize = 0;
                while i < calls.len()
                    invariant
                        i <= calls.len(),
                        names == call_names(calls@),
                        names.len() > 0,
                        self.tool_choice == (ToolChoice::Named { name: *name }),
                        first_other(names, name@) == first_other(names.skip(i as int), name@),
                    decreases calls.len() - i,
                {
                    let ghost t = names.skip(i as int);
                    assert(t[0] == names[i as int]);
                    assert(names[i as int] == calls@[i as int].tool_name@);
                    if !str_eq(calls[i].tool_name.as_str(), name.as_str()) {
                        let mut e = owned("prompt_guided_named_tool_mismatch: expected ");
                        push_str(&mut e, name.as_str());
                        push_str(&mut e, ", got ");
                        push_str(&mut e, calls[i].tool_name.as_str());
                        return Err(e);
                    }
                    assert(t.drop_first() =~= names.skip(i as int + 1));
                    i = i + 1;
                }
                assert(names.skip(calls.len() as int) =~= Seq::<Seq<char>>::empty());
                Ok(())
            },
        }
    }

    /// Checks calls against the tool choice and the tools offered.
    pub fn validate_tool_calls(&self, calls: &[AgentToolCall]) -> (r: Result<(), String>)
        ensures
            r matches Err(e) ==> calls_error(self.tool_choice, self.known(), call_names(calls@)) == Some(e@),
            r is Ok ==> calls_error(self.tool_choice, self.known(), call_names(calls@)) is None,
    {
        match self.check_choice_rules(calls) {
            Err(e) => return Err(e),
            Ok(()) => {},
        }
        let ghost names = call_names(calls@);
        assert(names.skip(0) =~= names);
        let mut j: usize = 0;
        while j < calls.len()
            invariant
                j <= calls.len(),
                names == call_names(calls@),
                choice_calls_error(self.tool_choice, names) is None,
                first_unknown(names, self.known()) == first_unknown(names.skip(j as int), self.known()),
            decreases calls.len() - j,
        {
            let ghost t = names.skip(j as int);
            assert(t[0] == names[j as int]);
            assert(names[j as int] == calls@[j as int].tool_name@);
            if !has_tool(self.tool_specs.as_slice(), calls[j].tool_name.as_str()) {
                let mut e = owned("prompt_guided_unknown_tool: ");
                push_str(&mut e, calls[j].tool_name.as_str());
                return Err(e);
            }
            assert(t.drop_first() =~= names.skip(j as int + 1));
            j = j + 1;
        }
        assert(names.skip(calls.len() as int) =~= Seq::<Seq<char>>::empty());
        Ok(())
    }

    /// Reads a text reply: plain text where the choice allows it, else the
    /// payload's calls and text. `parsed` is the payload read from JSON (or
    /// the reader's error), given where the reply has a payload.
    pub fn parse_text_step(
        &self,
        text: String,
        final_text: bool,
        parsed: Option<Result<PromptGuidedEnvelope, String>>,
    ) -> (r: Result<AgentStep, String>)
        requires
            parsed is Some <==> tool_payload_of(text@) is Some,
        ensures
            ({
                let expected = text_step_result(self.tool_choice, self.known(), text, final_text, parsed);
                &&& r matches Ok(s) ==> expected == Ok::<AgentStep, Seq<char>>(s)
                &&& r matches Err(e) ==> expected == Err::<AgentStep, Seq<char>>(e@)
            }),
    {
        match parsed {
            None => {
                match self.ensure_plain_text_allowed() {
                    Err(e) => Err(e),
                    Ok(()) => Ok(if final_text {
                        AgentStep::FinalText { text }
                    } else {
                        AgentStep::AssistantMessage { text }
                    }),
                }
            },
            Some(Err(e)) => {
                let mut m = owned("prompt_guided_invalid_response_json: ");
                push_str(&mut m, e.as_str());
                Err(m)
            },
            Some(Ok(env)) => {
                let blank = str_is_blank(env.content.as_str());
                if blank && env.tool_calls.len() == 0 {
                    return Err(owned("prompt_guided_empty_response"));
                }
                match self.validate_tool_calls(env.tool_calls.as_slice()) {
                    Err(e) => return Err(e),
                    Ok(()) => {},
                }
                if env.tool_calls.len() == 0 {
                    match self.ensure_plain_text_allowed() {
                        Err(e) => Err(e),
                        Ok(()) => Ok(if final_text {
                            AgentStep::FinalText { text: env.content }
                        } else {
                            AgentStep::AssistantMessage { text: env.content }
                        }),
                    }
                } else if blank {
                    Ok(AgentStep::ToolCalls { calls: env.tool_calls })
                } else {
                    Ok(AgentStep::AssistantMessageWithToolCalls { text: env.content, calls: env.tool_calls })
                }
            },
        }
    }

    /// Checks a step against the contract: text steps are read as above,
    /// steps with calls are checked, other steps pass unchanged.
    pub fn parse_step(&self, step: AgentStep, parsed: Option<Result<PromptGuidedEnvelope, String>>) -> (r: Result<AgentStep, String>)
        requires
            parsed is Some <==> step_payload(step) is Some,
        ensures
            ({
                let expected = step_result(self.tool_choice, self.known(), step, parsed);
                &&& r matches Ok(s) ==> expected == Ok::<AgentStep, Seq<char>>(s)
                &&& r matches Err(e) ==> expected == Err::<AgentStep, Seq<char>>(e@)
            }),
    {
        match step {
            AgentStep::FinalText { text } => self.parse_text_step(text, true, parsed),
            AgentStep::AssistantMessage { text } => self.parse_text_step(text, false, parsed),
            AgentStep::AssistantMessageWithToolCalls { text, calls } => {
                match self.validate_tool_calls(calls.as_slice()) {
                    Err(e) => Err(e),
                    Ok(()) => Ok(AgentStep::AssistantMessageWithToolCalls { text, calls }),
                }
            },
            AgentStep::ToolCalls { calls } => {
                match self.validate_tool_calls(calls.as_slice()) {
                    Err(e) => Err(e),
                    Ok(()) => Ok(AgentStep::ToolCalls { calls }),
                }
            },
            other => Ok(other),
        }
    }
}

} // verus!
