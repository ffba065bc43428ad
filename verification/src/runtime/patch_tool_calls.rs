//! Tool-call hygiene: call ids safe to carry anywhere, and an answer for
//! every tool call that never got one.
use vstd::prelude::*;

use crate::json::{json_quote, json_string_literal};
use crate::text::{is_ascii_alnum, owned, push_char, push_str, str_eq, to_chars, char_is_ascii_alnum};
use crate::provider::protocol::{normalize_provider_tool_calls, normalized_call, missing_ids, AgentStep};
use crate::types::{Message, MessageView, ToolCall, messages_view};

verus! {

/// Longest tool call id kept, in characters (all of them ASCII).
pub const MAX_TOOL_CALL_ID_LEN: usize = 128;

/// Characters a tool call id keeps as they are.
pub open spec fn id_char_ok(c: char) -> bool {
    is_ascii_alnum(c) || c == '_' || c == '-' || c == '.'
}

/// The id built from the first `k` characters of `s`, and whether it ends
/// in a dot: unsafe characters become `_`, the second dot of a pair
/// becomes `_`, and nothing is added once 128 characters are there.
pub open spec fn sanitize_state(s: Seq<char>, k: int) -> (Seq<char>, bool)
    decreases k,
{
    if k <= 0 {
        (Seq::empty(), false)
    } else {
        let (out, prev_dot) = sanitize_state(s, k - 1);
        if out.len() >= MAX_TOOL_CALL_ID_LEN {
            (out, prev_dot)
        } else {
            let ch = s[k - 1];
            let mapped = if id_char_ok(ch) { ch } else { '_' };
            if mapped == '.' {
                if prev_dot {
                    (out.push('_'), false)
                } else {
                    (out.push('.'), true)
                }
            } else {
                (out.push(mapped), false)
            }
        }
    }
}

/// The sanitized form of a tool call id; `_` when nothing is left.
pub open spec fn sanitized(s: Seq<char>) -> Seq<char> {
    let out = sanitize_state(s, s.len() as int).0;
    if out.len() == 0 {
        seq!['_']
    } else {
        out
    }
}

/// Maps a tool call id to `[A-Za-z0-9_.-]`, at most 128 characters, with no
/// two dots in a row and never empty.
pub fn sanitize_tool_call_id(id: &str) -> (r: String)
    ensures
        r@ == sanitized(id@),
{
    let cs = to_chars(id);
    let mut out = String::new();
    let mut n: usize = 0;
    let mut prev_dot = false;
    let mut i: usize = 0;
    while i < cs.len()
        invariant
            i <= cs.len(),
            cs@ == id@,
            n == out@.len(),
            n <= MAX_TOOL_CALL_ID_LEN,
            (out@, prev_dot) == sanitize_state(id@, i as int),
        decreases cs.len() - i,
    {
        if n < MAX_TOOL_CALL_ID_LEN {
            let ch = cs[i];
            let ok = char_is_ascii_alnum(ch) || ch == '_' || ch == '-' || ch == '.';
            let mapped = if ok { ch } else { '_' };
            if mapped == '.' {
                if prev_dot {
                    push_char(&mut out, '_');
                    prev_dot = false;
                } else {
                    push_char(&mut out, '.');
                    prev_dot = true;
                }
            } else {
                prev_dot = false;
                push_char(&mut out, mapped);
            }
            n = n + 1;
        }
        i = i + 1;
    }
    if n == 0 {
        proof {
            reveal_strlit("_");
        }
        owned("_")
    } else {
        out
    }
}

/// The properties of every sanitized prefix.
proof fn lemma_sanitize_state(s: Seq<char>, k: int)
    requires
        0 <= k <= s.len(),
    ensures
        ({
            let (out, prev_dot) = sanitize_state(s, k);
            &&& out.len() <= MAX_TOOL_CALL_ID_LEN
            &&& out.len() <= k
            &&& forall|i: int| 0 <= i < out.len() ==> id_char_ok(#[trigger] out[i])
            &&& forall|i: int| 0 <= i < out.len() - 1 ==> !(#[trigger] out[i] == '.' && out[i + 1] == '.')
            &&& prev_dot <==> (out.len() > 0 && out[out.len() - 1] == '.')
        }),
    decreases k,
{
    if k > 0 {
        lemma_sanitize_state(s, k - 1);
    }
}

/// A sanitized id is never empty and holds at most 128 characters.
pub proof fn law_sanitized_len(s: Seq<char>)
    ensures
        1 <= sanitized(s).len() <= MAX_TOOL_CALL_ID_LEN,
{
    lemma_sanitize_state(s, s.len() as int);
}

/// Every character of a sanitized id is a letter, a digit, `_`, `-` or `.`.
pub proof fn law_sanitized_chars(s: Seq<char>)
    ensures
        forall|i: int| 0 <= i < sanitized(s).len() ==> id_char_ok(#[trigger] sanitized(s)[i]),
{
    lemma_sanitize_state(s, s.len() as int);
}

/// A sanitized id never holds `..`.
pub proof fn law_sanitized_no_double_dot(s: Seq<char>)
    ensures
        forall|i: int|
            0 <= i < sanitized(s).len() - 1 ==> !(#[trigger] sanitized(s)[i] == '.' && sanitized(s)[i + 1] == '.'),
{
    lemma_sanitize_state(s, s.len() as int);
}

/// On an id that is already safe, every prefix is kept as it is.
proof fn lemma_sanitize_safe(t: Seq<char>, k: int)
    requires
        0 <= k <= t.len(),
        t.len() <= MAX_TOOL_CALL_ID_LEN,
        forall|i: int| 0 <= i < t.len() ==> id_char_ok(#[trigger] t[i]),
        forall|i: int| 0 <= i < t.len() - 1 ==> !(#[trigger] t[i] == '.' && t[i + 1] == '.'),
    ensures
        sanitize_state(t, k) == (t.take(k), k > 0 && t[k - 1] == '.'),
    decreases k,
{
    if k > 0 {
        lemma_sanitize_safe(t, k - 1);
        assert(t.take(k - 1).push(t[k - 1]) =~= t.take(k));
        if k >= 2 {
            assert(!(t[k - 2] == '.' && t[k - 1] == '.'));
        }
    }
}

/// Sanitizing twice gives what sanitizing once gives.
pub proof fn law_sanitize_idempotent(s: Seq<char>)
    ensures
        sanitized(sanitized(s)) == sanitized(s),
{
    let t = sanitized(s);
    law_sanitized_len(s);
    law_sanitized_chars(s);
    law_sanitized_no_double_dot(s);
    lemma_sanitize_safe(t, t.len() as int);
    assert(t.take(t.len() as int) =~= t);
}

/// Message `m` is the tool result answering call `id`.
pub open spec fn is_tool_result_for(m: MessageView, id: Seq<char>) -> bool {
    m.role == "tool"@ && m.tool_call_id == Some(id)
}

/// A message after position `i` answers call `id`.
pub open spec fn answered_after(ms: Seq<MessageView>, i: int, id: Seq<char>) -> bool {
    exists|j: int| i < j < ms.len() && #[trigger] is_tool_result_for(ms[j], id)
}

/// The text a patched answer carries for a cancelled call.
pub open spec fn patch_note(id: Seq<char>, name: Seq<char>) -> Seq<char> {
    "PATCHED_TOOL_CALL: Tool call "@ + name + " ("@ + id + ") was cancelled - missing tool result."@
}

/// The JSON object a patched answer holds, keys in the order `serde_json`
/// writes a map.
pub open spec fn patch_content(id: Seq<char>, name: Seq<char>) -> Seq<char> {
    "{\"content\":"@ + json_string_literal(patch_note(id, name))
        + ",\"error\":\"tool_call_cancelled: missing tool result\",\"output\":null,\"status\":\"patched\",\"tool_call_id\":"@
        + json_string_literal(id) + ",\"tool_name\":"@ + json_string_literal(name) + "}"@
}

/// The tool message that answers a dangling call.
pub open spec fn patch_message(tc: ToolCall) -> MessageView {
    MessageView {
        role: "tool"@,
        content: patch_content(tc.id@, tc.name@),
        content_blocks: None,
        reasoning_content: None,
        tool_calls: None,
        tool_call_id: Some(tc.id@),
        name: Some(tc.name@),
        status: Some("patched"@),
    }
}

/// The answers added after message `i` for the calls of `tcs` that no later
/// message answers, in the order of the calls.
pub open spec fn patches_among(ms: Seq<MessageView>, i: int, tcs: Seq<ToolCall>) -> Seq<MessageView>
    decreases tcs.len(),
{
    if tcs.len() == 0 {
        Seq::empty()
    } else {
        let rest = patches_among(ms, i, tcs.drop_last());
        if answered_after(ms, i, tcs.last().id@) {
            rest
        } else {
            rest.push(patch_message(tcs.last()))
        }
    }
}

/// The answers added after message `i`.
pub open spec fn patches_for(ms: Seq<MessageView>, i: int) -> Seq<MessageView> {
    match ms[i].tool_calls {
        Some(tcs) => patches_among(ms, i, tcs),
        None => Seq::empty(),
    }
}

/// The first `k` messages, each followed by the answers it lacks.
pub open spec fn patched_prefix(ms: Seq<MessageView>, k: int) -> Seq<MessageView>
    decreases k,
{
    if k <= 0 {
        Seq::empty()
    } else {
        patched_prefix(ms, k - 1).push(ms[k - 1]) + patches_for(ms, k - 1)
    }
}

/// The history with every dangling tool call answered.
pub open spec fn patched_history(ms: Seq<MessageView>) -> Seq<MessageView> {
    patched_prefix(ms, ms.len() as int)
}

fn has_result_after(messages: &Vec<Message>, i: usize, id: &str) -> (r: bool)
    requires
        i < messages.len(),
    ensures
        r == answered_after(messages_view(messages@), i as int, id@),
{
    let ghost ms = messages_view(messages@);
    let mut j: usize = i + 1;
    while j < messages.len()
        invariant
            i < j <= messages.len(),
            ms == messages_view(messages@),
            forall|k: int| i < k < j ==> !#[trigger] is_tool_result_for(ms[k], id@),
        decreases messages.len() - j,
    {
        let m = &messages[j];
        if str_eq(m.role.as_str(), "tool") {
            if let Some(t) = &m.tool_call_id {
                if str_eq(t.as_str(), id) {
                    assert(is_tool_result_for(ms[j as int], id@));
                    return true;
                }
            }
        }
        assert(!is_tool_result_for(ms[j as int], id@));
        j = j + 1;
    }
    false
}

fn patch_message_for(tc: &ToolCall) -> (r: Message)
    ensures
        r@ == patch_message(*tc),
{
    let mut note = owned("PATCHED_TOOL_CALL: Tool call ");
    push_str(&mut note, tc.name.as_str());
    push_str(&mut note, " (");
    push_str(&mut note, tc.id.as_str());
    push_str(&mut note, ") was cancelled - missing tool result.");
    let mut content = owned("{\"content\":");
    let q = json_quote(note.as_str());
    push_str(&mut content, q.as_str());
    push_str(
        &mut content,
        ",\"error\":\"tool_call_cancelled: missing tool result\",\"output\":null,\"status\":\"patched\",\"tool_call_id\":",
    );
    let q = json_quote(tc.id.as_str());
    push_str(&mut content, q.as_str());
    push_str(&mut content, ",\"tool_name\":");
    let q = json_quote(tc.name.as_str());
    push_str(&mut content, q.as_str());
    push_str(&mut content, "}");
    Message {
        role: owned("tool"),
        content,
        content_blocks: None,
        reasoning_content: None,
        tool_calls: None,
        tool_call_id: Some(tc.id.clone()),
        name: Some(tc.name.clone()),
        status: Some(owned("patched")),
    }
}

/// Adds, after each message with tool calls, a `tool` message marked
/// `patched` for every call that no later message answers.
pub fn patch_dangling_tool_calls(messages: Vec<Message>) -> (r: Vec<Message>)
    ensures
        messages_view(r@) == patched_history(messages_view(messages@)),
{
    let ghost ms = messages_view(messages@);
    let mut out: Vec<Message> = Vec::new();
    let mut i: usize = 0;
    while i < messages.len()
        invariant
            i <= messages.len(),
            ms == messages_view(messages@),
            messages_view(out@) == patched_prefix(ms, i as int),
        decreases messages.len() - i,
    {
        let msg = messages[i].clone();
        proof {
            assert(messages_view(out@.push(msg)) =~= messages_view(out@).push(msg@));
        }
        out.push(msg);
        let ghost base = messages_view(out@);
        assert(base == patched_prefix(ms, i as int).push(ms[i as int]));
        match &messages[i].tool_calls {
            Some(tcs) => {
                let mut j: usize = 0;
                while j < tcs.len()
                    invariant
                        j <= tcs.len(),
                        i < messages.len(),
                        ms == messages_view(messages@),
                        messages_view(out@) == base + patches_among(ms, i as int, tcs@.take(j as int)),
                    decreases tcs.len() - j,
                {
                    let tc = &tcs[j];
                    let ghost prev = tcs@.take(j as int);
                    assert(tcs@.take(j as int + 1).drop_last() =~= prev);
                    if !has_result_after(&messages, i, tc.id.as_str()) {
                        let p = patch_message_for(tc);
                        proof {
                            assert(messages_view(out@.push(p)) =~= messages_view(out@).push(p@));
                        }
                        out.push(p);
                        assert(messages_view(out@) =~= base + patches_among(ms, i as int, tcs@.take(j as int + 1)));
                    } else {
                        assert(patches_among(ms, i as int, tcs@.take(j as int + 1)) == patches_among(ms, i as int, prev));
                    }
                    j = j + 1;
                }
                assert(tcs@.take(tcs.len() as int) =~= tcs@);
            },
            None => {
                assert(messages_view(out@) =~= base + Seq::<MessageView>::empty());
            },
        }
        i = i + 1;
    }
    out
}


/// No call of any message lacks a later `tool` message that answers it.
pub open spec fn no_dangling_calls(ms: Seq<MessageView>) -> bool {
    forall|q: int, c: int|
        0 <= q < ms.len() && (ms[q].tool_calls matches Some(tcs) && 0 <= c < tcs.len())
            ==> #[trigger] answered_after(ms, q, ms[q].tool_calls.unwrap()[c].id@)
}

proof fn lemma_prefix_grows(ms: Seq<MessageView>, k1: int, k2: int)
    requires
        0 <= k1 <= k2 <= ms.len(),
    ensures
        patched_prefix(ms, k1).len() <= patched_prefix(ms, k2).len(),
        patched_prefix(ms, k2).take(patched_prefix(ms, k1).len() as int) == patched_prefix(ms, k1),
    decreases k2,
{
    if k1 < k2 {
        lemma_prefix_grows(ms, k1, k2 - 1);
        let a = patched_prefix(ms, k1);
        let b = patched_prefix(ms, k2 - 1);
        let c = patched_prefix(ms, k2);
        assert(c == b.push(ms[k2 - 1]) + patches_for(ms, k2 - 1));
        assert(c.take(a.len() as int) =~= b.take(a.len() as int));
    } else {
        let a = patched_prefix(ms, k1);
        assert(a.take(a.len() as int) =~= a);
    }
}

proof fn lemma_patches_are_answers(ms: Seq<MessageView>, i: int, tcs: Seq<ToolCall>)
    ensures
        forall|t: int|
            0 <= t < patches_among(ms, i, tcs).len() ==> (#[trigger] patches_among(ms, i, tcs)[t]).tool_calls is None,
        forall|c: int|
            0 <= c < tcs.len() && !answered_after(ms, i, #[trigger] tcs[c].id@) ==> exists|t: int|
                0 <= t < patches_among(ms, i, tcs).len() && #[trigger] patches_among(ms, i, tcs)[t]
                    == patch_message(tcs[c]),
    decreases tcs.len(),
{
    if tcs.len() > 0 {
        let init = tcs.drop_last();
        lemma_patches_are_answers(ms, i, init);
        let rest = patches_among(ms, i, init);
        assert forall|c: int| 0 <= c < tcs.len() && !answered_after(ms, i, #[trigger] tcs[c].id@) implies exists|t: int|
            0 <= t < patches_among(ms, i, tcs).len() && #[trigger] patches_among(ms, i, tcs)[t] == patch_message(tcs[c]) by {
            if c < tcs.len() - 1 {
                assert(init[c] == tcs[c]);
                let t = choose|t: int| 0 <= t < rest.len() && #[trigger] rest[t] == patch_message(init[c]);
                assert(patches_among(ms, i, tcs)[t] == rest[t]);
            } else {
                assert(patches_among(ms, i, tcs)[rest.len() as int] == patch_message(tcs[c]));
            }
        }
    }
}

proof fn lemma_origin(ms: Seq<MessageView>, k: int, q: int)
    requires
        0 <= k <= ms.len(),
        0 <= q < patched_prefix(ms, k).len(),
        patched_prefix(ms, k)[q].tool_calls is Some,
    ensures
        exists|i: int| 0 <= i < k && q == patched_prefix(ms, i).len() && #[trigger] patched_prefix(ms, k)[q] == ms[i],
    decreases k,
{
    let b = patched_prefix(ms, k - 1);
    let p = patches_for(ms, k - 1);
    assert(patched_prefix(ms, k) == b.push(ms[k - 1]) + p);
    if q < b.len() {
        lemma_origin(ms, k - 1, q);
        let i = choose|i: int| 0 <= i < k - 1 && q == patched_prefix(ms, i).len() && #[trigger] b[q] == ms[i];
        assert(patched_prefix(ms, k)[q] == ms[i]);
    } else if q == b.len() {
        assert(patched_prefix(ms, k)[q] == ms[k - 1]);
    } else {
        match ms[k - 1].tool_calls {
            Some(tcs) => {
                lemma_patches_are_answers(ms, k - 1, tcs);
                assert(patched_prefix(ms, k)[q] == p[q - b.len() - 1]);
            },
            None => {},
        }
    }
}

/// Message `i` stands at the end of the first `i` messages with their answers.
proof fn lemma_position(ms: Seq<MessageView>, i: int)
    requires
        0 <= i < ms.len(),
    ensures
        patched_history(ms)[patched_prefix(ms, i).len() as int] == ms[i],
        patched_prefix(ms, i).len() < patched_prefix(ms, i + 1).len() <= patched_history(ms).len(),
        forall|t: int| 0 <= t < patches_for(ms, i).len() ==>
            patched_history(ms)[patched_prefix(ms, i).len() + 1 + t] == #[trigger] patches_for(ms, i)[t],
{
    let n = ms.len() as int;
    lemma_prefix_grows(ms, i + 1, n);
    let a = patched_prefix(ms, i + 1);
    let h = patched_history(ms);
    assert(a == patched_prefix(ms, i).push(ms[i]) + patches_for(ms, i));
    assert(a[patched_prefix(ms, i).len() as int] == ms[i]);
    assert forall|t: int| 0 <= t < patches_for(ms, i).len() implies
        h[patched_prefix(ms, i).len() + 1 + t] == #[trigger] patches_for(ms, i)[t] by {
        assert(a[patched_prefix(ms, i).len() + 1 + t] == patches_for(ms, i)[t]);
        assert(h.take(a.len() as int)[patched_prefix(ms, i).len() + 1 + t] == h[patched_prefix(ms, i).len() + 1 + t]);
    }
    assert(h.take(a.len() as int)[patched_prefix(ms, i).len() as int] == h[patched_prefix(ms, i).len() as int]);
}

/// After patching, every tool call has an answer later in the history.
pub proof fn law_patched_history_has_no_dangling_calls(ms: Seq<MessageView>)
    ensures
        no_dangling_calls(patched_history(ms)),
{
    let h = patched_history(ms);
    let n = ms.len() as int;
    assert forall|q: int, c: int|
        0 <= q < h.len() && (h[q].tool_calls matches Some(tcs) && 0 <= c < tcs.len())
            implies #[trigger] answered_after(h, q, h[q].tool_calls.unwrap()[c].id@) by {
        lemma_origin(ms, n, q);
        let i = choose|i: int| 0 <= i < n && q == patched_prefix(ms, i).len() && #[trigger] h[q] == ms[i];
        let tcs = ms[i].tool_calls.unwrap();
        let id = tcs[c].id@;
        lemma_position(ms, i);
        if answered_after(ms, i, id) {
            let j = choose|j: int| i < j < ms.len() && #[trigger] is_tool_result_for(ms[j], id);
            lemma_position(ms, j);
            lemma_prefix_grows(ms, i + 1, j);
            assert(is_tool_result_for(h[patched_prefix(ms, j).len() as int], id));
        } else {
            lemma_patches_are_answers(ms, i, tcs);
            let t = choose|t: int| 0 <= t < patches_among(ms, i, tcs).len() && #[trigger] patches_among(ms, i, tcs)[t]
                == patch_message(tcs[c]);
            assert(patches_for(ms, i)[t] == patch_message(tcs[c]));
            assert(is_tool_result_for(h[patched_prefix(ms, i).len() + 1 + t], id));
        }
    }
}

proof fn lemma_no_patches(ms: Seq<MessageView>, i: int, tcs: Seq<ToolCall>)
    requires
        forall|c: int| 0 <= c < tcs.len() ==> answered_after(ms, i, #[trigger] tcs[c].id@),
    ensures
        patches_among(ms, i, tcs) == Seq::<MessageView>::empty(),
    decreases tcs.len(),
{
    if tcs.len() > 0 {
        let init = tcs.drop_last();
        assert forall|c: int| 0 <= c < init.len() implies answered_after(ms, i, #[trigger] init[c].id@) by {
            assert(init[c] == tcs[c]);
        }
        lemma_no_patches(ms, i, init);
        assert(answered_after(ms, i, tcs[tcs.len() - 1].id@));
    }
}

/// A history in which every call is answered is left as it is.
pub proof fn law_patch_keeps_complete_history(ms: Seq<MessageView>)
    requires
        no_dangling_calls(ms),
    ensures
        patched_history(ms) == ms,
{
    assert forall|k: int| 0 <= k <= ms.len() implies #[trigger] patched_prefix(ms, k) == ms.take(k) by {
        lemma_prefix_is_take(ms, k);
    }
    assert(ms.take(ms.len() as int) =~= ms);
}

proof fn lemma_prefix_is_take(ms: Seq<MessageView>, k: int)
    requires
        no_dangling_calls(ms),
        0 <= k <= ms.len(),
    ensures
        patched_prefix(ms, k) == ms.take(k),
    decreases k,
{
    if k > 0 {
        lemma_prefix_is_take(ms, k - 1);
        match ms[k - 1].tool_calls {
            Some(tcs) => {
                assert forall|c: int| 0 <= c < tcs.len() implies answered_after(ms, k - 1, #[trigger] tcs[c].id@) by {
                    assert(answered_after(ms, k - 1, ms[k - 1].tool_calls.unwrap()[c].id@));
                }
                lemma_no_patches(ms, k - 1, tcs);
            },
            None => {},
        }
        assert(ms.take(k - 1).push(ms[k - 1]) =~= ms.take(k));
        assert(patched_prefix(ms, k) =~= ms.take(k));
    }
}

/// The middleware that keeps tool calls well formed: it answers calls left
/// without a result, and normalizes the calls of each provider step.
#[derive(Debug, Clone, Copy, PartialEq, Eq, Structural)]
pub struct PatchToolCallsMiddleware;

impl PatchToolCallsMiddleware {
    /// The middleware; it takes no settings.
    pub fn new() -> (r: Self)
        ensures
            r == PatchToolCallsMiddleware,
    {
        PatchToolCallsMiddleware
    }

    /// Answers each tool call of the history that has no result, as
    /// [`patch_dangling_tool_calls`] does.
    pub fn patch_history(&self, messages: Vec<Message>) -> (r: Vec<Message>)
        ensures
            messages_view(r@) == patched_history(messages_view(messages@)),
    {
        patch_dangling_tool_calls(messages)
    }

    /// Normalizes the calls of a step that has calls (see
    /// [`normalize_provider_tool_calls`]); other steps pass unchanged.
    pub fn patch_provider_step(&self, step: AgentStep, next_call_id: &mut u64) -> (r: AgentStep)
        requires
            match step {
                AgentStep::AssistantMessageWithToolCalls { calls, .. } => *old(next_call_id) + calls.len() <= u64::MAX,
                AgentStep::ToolCalls { calls } => *old(next_call_id) + calls.len() <= u64::MAX,
                _ => true,
            },
        ensures
            match step {
                AgentStep::AssistantMessageWithToolCalls { text, calls } => r matches AgentStep::AssistantMessageWithToolCalls {
                    text: t,
                    calls: out,
                } && t == text && out.len() == calls.len() && (forall|k: int|
                    0 <= k < calls.len() ==> normalized_call(calls@, *old(next_call_id) as nat, k, #[trigger] out@[k]))
                    && *final(next_call_id) == *old(next_call_id) + missing_ids(calls@),
                AgentStep::ToolCalls { calls } => r matches AgentStep::ToolCalls { calls: out } && out.len() == calls.len()
                    && (forall|k: int|
                    0 <= k < calls.len() ==> normalized_call(calls@, *old(next_call_id) as nat, k, #[trigger] out@[k]))
                    && *final(next_call_id) == *old(next_call_id) + missing_ids(calls@),
                _ => r == step && *final(next_call_id) == *old(next_call_id),
            },
    {
        match step {
            AgentStep::AssistantMessageWithToolCalls { text, calls } => {
                let calls = normalize_provider_tool_calls(calls, next_call_id);
                AgentStep::AssistantMessageWithToolCalls { text, calls }
            },
            AgentStep::ToolCalls { calls } => {
                let calls = normalize_provider_tool_calls(calls, next_call_id);
                AgentStep::ToolCalls { calls }
            },
            other => other,
        }
    }
}

impl Default for PatchToolCallsMiddleware {
    fn default() -> (r: Self)
        ensures
            r == PatchToolCallsMiddleware,
    {
        PatchToolCallsMiddleware::new()
    }
}

} // verus!
