//! Large tool results: when one is written to a file in place of the
//! conversation, where, and the preview left behind.
use vstd::prelude::*;

use crate::json::{
    json_bool_of, json_empty_object, json_field_of, json_from_bool, json_from_str, json_from_u64, json_get_str, json_insert_field,
    json_kind, json_kind_of, json_str_field, json_text_of, json_to_text, json_u64_of, JsonKind,
};
use crate::runtime::call_queue::text_field;
use crate::state::AgentState;
use crate::runtime::patch_tool_calls::{sanitize_tool_call_id, sanitized};
use crate::string_set::string_views;
use crate::text::{char_count, join, joined, lines, lines_of, owned, push_str, str_eq, str_trim, to_chars, from_chars, slice_range, trim};
use crate::types::Message;

verus! {

/// Settings of the filesystem runtime middleware.
#[derive(Debug, Clone)]
pub struct FilesystemRuntimeOptions {
    pub enabled: bool,
    pub tool_output_char_threshold: usize,
    pub large_result_prefix: String,
    pub excluded_tools: Vec<String>,
    pub preview_max_lines: usize,
}

impl Default for FilesystemRuntimeOptions {
    /// On; results of 20000 characters or more go under
    /// `/large_tool_results`, but for the filesystem tools; 10 preview lines.
    fn default() -> (r: Self)
        ensures
            r.enabled,
            r.tool_output_char_threshold == 20_000,
            r.large_result_prefix@ == "/large_tool_results"@,
            string_views(r.excluded_tools@) == seq!["ls"@, "glob"@, "grep"@, "read_file"@, "edit_file"@, "write_file"@],
            r.preview_max_lines == 10,
    {
        let excluded_tools = vec![
            owned("ls"),
            owned("glob"),
            owned("grep"),
            owned("read_file"),
            owned("edit_file"),
            owned("write_file"),
        ];
        assert(string_views(excluded_tools@) =~= seq!["ls"@, "glob"@, "grep"@, "read_file"@, "edit_file"@, "write_file"@]);
        FilesystemRuntimeOptions {
            enabled: true,
            tool_output_char_threshold: 20_000,
            large_result_prefix: owned("/large_tool_results"),
            excluded_tools,
            preview_max_lines: 10,
        }
    }
}

/// The offload settings the runtime reads from the state.
#[derive(Debug, Clone)]
pub struct LargeToolResultOffloadOptions {
    pub enabled: bool,
    pub threshold_chars: usize,
    pub prefix: String,
    pub excluded_tools: Vec<String>,
    pub preview_max_lines: usize,
}

/// What the middleware saw of the tool results before a provider step.
#[derive(Debug, Clone)]
pub struct FilesystemRuntimeEvent {
    pub enabled: bool,
    pub threshold_chars: usize,
    pub candidates: usize,
    pub max_candidate_chars: usize,
    pub total_candidate_chars: usize,
    pub offload_performed: bool,
    pub large_result_prefix: String,
}

/// The filesystem runtime middleware.
#[derive(Debug, Clone)]
pub struct FilesystemRuntimeMiddleware {
    options: FilesystemRuntimeOptions,
}

/// Tool results at or over the threshold: how many, the longest and the
/// total (saturating), in characters.
pub open spec fn candidate_stats(ms: Seq<Message>, threshold: nat) -> (nat, nat, nat)
    decreases ms.len(),
{
    if ms.len() == 0 {
        (0, 0, 0)
    } else {
        let (c, mx, total) = candidate_stats(ms.drop_last(), threshold);
        let m = ms.last();
        let n = m.content@.len();
        if m.role@ == "tool"@ && n >= threshold {
            (c + 1, if n > mx { n } else { mx }, if total + n > usize::MAX { usize::MAX as nat } else { total + n })
        } else {
            (c, mx, total)
        }
    }
}

impl FilesystemRuntimeMiddleware {
    pub closed spec fn options(&self) -> FilesystemRuntimeOptions {
        self.options
    }

    pub fn new(options: FilesystemRuntimeOptions) -> (r: Self)
        ensures
            r.options() == options,
    {
        FilesystemRuntimeMiddleware { options }
    }

    /// The offload settings the middleware writes into the state.
    pub fn offload_options(&self) -> (r: LargeToolResultOffloadOptions)
        ensures
            r.enabled == self.options().enabled,
            r.threshold_chars == self.options().tool_output_char_threshold,
            r.prefix@ == self.options().large_result_prefix@,
            string_views(r.excluded_tools@) == string_views(self.options().excluded_tools@),
            r.preview_max_lines == self.options().preview_max_lines,
    {
        let excluded_tools = crate::memory::protocol::clone_strings(&self.options.excluded_tools);
        LargeToolResultOffloadOptions {
            enabled: self.options.enabled,
            threshold_chars: self.options.tool_output_char_threshold,
            prefix: self.options.large_result_prefix.clone(),
            excluded_tools,
            preview_max_lines: self.options.preview_max_lines,
        }
    }

    /// Counts the tool results that are candidates for offloading.
    pub fn scan(&self, messages: &[Message]) -> (r: FilesystemRuntimeEvent)
        ensures
            r.enabled == self.options().enabled,
            r.threshold_chars == self.options().tool_output_char_threshold,
            (r.candidates as nat, r.max_candidate_chars as nat, r.total_candidate_chars as nat) == candidate_stats(
                messages@,
                self.options().tool_output_char_threshold as nat,
            ),
            !r.offload_performed,
            r.large_result_prefix@ == self.options().large_result_prefix@,
    {
        let threshold = self.options.tool_output_char_threshold;
        let mut candidates: usize = 0;
        let mut max_chars: usize = 0;
        let mut total: usize = 0;
        let mut i: usize = 0;
        while i < messages.len()
            invariant
                i <= messages.len(),
                (candidates as nat, max_chars as nat, total as nat) == candidate_stats(messages@.take(i as int), threshold as nat),
                candidates <= i,
            decreases messages.len() - i,
        {
            assert(messages@.take(i as int + 1).drop_last() =~= messages@.take(i as int));
            let m = &messages[i];
            if str_eq(m.role.as_str(), "tool") {
                let n = char_count(m.content.as_str());
                if n >= threshold {
                    candidates = candidates + 1;
                    if n > max_chars {
                        max_chars = n;
                    }
                    total = total.saturating_add(n);
                }
            }
            i = i + 1;
        }
        assert(messages@.take(messages.len() as int) =~= messages@);
        FilesystemRuntimeEvent {
            enabled: self.options.enabled,
            threshold_chars: threshold,
            candidates,
            max_candidate_chars: max_chars,
            total_candidate_chars: total,
            offload_performed: false,
            large_result_prefix: self.options.large_result_prefix.clone(),
        }
    }
}

/// A result is offloaded when offloading is on, its tool is not excluded,
/// and it holds at least the threshold of characters.
pub open spec fn offload_wanted(opts: LargeToolResultOffloadOptions, tool_name: Seq<char>, total_chars: nat) -> bool {
    &&& opts.enabled
    &&& !string_views(opts.excluded_tools@).contains(tool_name)
    &&& total_chars >= opts.threshold_chars
}

/// Whether a tool result of `total_chars` characters is written to a file.
pub fn should_offload(opts: &LargeToolResultOffloadOptions, tool_name: &str, total_chars: usize) -> (r: bool)
    ensures
        r == offload_wanted(*opts, tool_name@, total_chars as nat),
{
    if !opts.enabled {
        return false;
    }
    let mut k: usize = 0;
    while k < opts.excluded_tools.len()
        invariant
            k <= opts.excluded_tools.len(),
            forall|j: int| 0 <= j < k ==> string_views(opts.excluded_tools@)[j] != tool_name@,
        decreases opts.excluded_tools.len() - k,
    {
        if str_eq(opts.excluded_tools[k].as_str(), tool_name) {
            assert(string_views(opts.excluded_tools@)[k as int] == tool_name@);
            return false;
        }
        k = k + 1;
    }
    total_chars >= opts.threshold_chars
}

/// The prefix without its trailing slashes (`trim_end_matches('/')`).
pub open spec fn trim_slashes(s: Seq<char>) -> Seq<char>
    decreases s.len(),
{
    if s.len() > 0 && s.last() == '/' {
        trim_slashes(s.drop_last())
    } else {
        s
    }
}

fn trim_end_slashes(s: &str) -> (r: String)
    ensures
        r@ == trim_slashes(s@),
{
    let cs = to_chars(s);
    let mut n: usize = cs.len();
    assert(s@.take(n as int) =~= s@);
    while n > 0 && cs[n - 1] == '/'
        invariant
            n <= cs.len(),
            cs@ == s@,
            trim_slashes(s@) == trim_slashes(s@.take(n as int)),
        decreases n,
    {
        assert(s@.take(n as int).drop_last() =~= s@.take(n as int - 1));
        n = n - 1;
    }
    assert(trim_slashes(s@.take(n as int)) == s@.take(n as int));
    from_chars(&slice_range(&cs, 0, n))
}

/// Where an offloaded result of call `call_id` is written.
pub open spec fn offload_path_of(prefix: Seq<char>, call_id: Seq<char>) -> Seq<char> {
    trim_slashes(prefix) + "/"@ + sanitized(call_id)
}

/// The file an offloaded tool result goes to.
pub fn offload_path(prefix: &str, call_id: &str) -> (r: String)
    ensures
        r@ == offload_path_of(prefix@, call_id@),
{
    let mut p = trim_end_slashes(prefix);
    push_str(&mut p, "/");
    let id = sanitize_tool_call_id(call_id);
    push_str(&mut p, id.as_str());
    p
}

/// The first and last `max(max_lines, 1)` lines of a text.
pub open spec fn head_tail_of(text: Seq<char>, max_lines: nat) -> (Seq<char>, Seq<char>) {
    let m: int = if max_lines == 0 { 1 } else { max_lines as int };
    let ls = lines_of(text);
    let k = if ls.len() < m { ls.len() as int } else { m };
    (joined(ls.take(k), "\n"@), joined(ls.skip(ls.len() - k), "\n"@))
}

/// The first and last lines of a text, for a preview.
pub fn preview_head_tail_lines(text: &str, max_lines: usize) -> (r: (String, String))
    ensures
        (r.0@, r.1@) == head_tail_of(text@, max_lines as nat),
{
    let m = if max_lines == 0 { 1 } else { max_lines };
    let ls = lines(text);
    let ghost lv = ls@.map_values(|t: String| t@);
    let k = if ls.len() < m { ls.len() } else { m };
    let mut head: Vec<String> = Vec::new();
    let mut i: usize = 0;
    while i < k
        invariant
            i <= k <= ls.len(),
            lv == ls@.map_values(|t: String| t@),
            head@.map_values(|t: String| t@) == lv.take(i as int),
        decreases k - i,
    {
        let ghost prev = head@.map_values(|t: String| t@);
        let x = ls[i].clone();
        assert(x@ == lv[i as int]);
        head.push(x);
        assert(head@.map_values(|t: String| t@) =~= prev.push(lv[i as int]));
        assert(lv.take(i as int + 1) =~= lv.take(i as int).push(lv[i as int]));
        i = i + 1;
    }
    let mut tail: Vec<String> = Vec::new();
    let start = ls.len() - k;
    let mut j: usize = start;
    while j < ls.len()
        invariant
            start <= j <= ls.len(),
            start == ls.len() - k,
            lv == ls@.map_values(|t: String| t@),
            tail@.map_values(|t: String| t@) == lv.subrange(start as int, j as int),
        decreases ls.len() - j,
    {
        let ghost prev = tail@.map_values(|t: String| t@);
        let x = ls[j].clone();
        assert(x@ == lv[j as int]);
        tail.push(x);
        assert(tail@.map_values(|t: String| t@) =~= prev.push(lv[j as int]));
        assert(lv.subrange(start as int, j as int + 1) =~= lv.subrange(start as int, j as int).push(lv[j as int]));
        j = j + 1;
    }
    assert(lv.subrange(start as int, ls.len() as int) =~= lv.skip(start as int));
    (join(head.as_slice(), "\n"), join(tail.as_slice(), "\n"))
}

/// The message left in the conversation in place of an offloaded result.
pub open spec fn offload_note(path: Seq<char>, head: Seq<char>, tail: Seq<char>) -> Seq<char> {
    "TOOL_OUTPUT_OFFLOADED: Full output written to "@ + path
        + ". Use read_file with offset/limit to paginate.\n<preview_head>\n"@ + head
        + "\n</preview_head>\n<preview_tail>\n"@ + tail + "\n</preview_tail>"@
}

/// The message left in place of an offloaded result.
pub fn offloaded_message(path: &str, head: &str, tail: &str) -> (r: String)
    ensures
        r@ == offload_note(path@, head@, tail@),
{
    let mut s = owned("TOOL_OUTPUT_OFFLOADED: Full output written to ");
    push_str(&mut s, path);
    push_str(&mut s, ". Use read_file with offset/limit to paginate.\n<preview_head>\n");
    push_str(&mut s, head);
    push_str(&mut s, "\n</preview_head>\n<preview_tail>\n");
    push_str(&mut s, tail);
    push_str(&mut s, "\n</preview_tail>");
    s
}

/// The text a tool result is answered with: its `content` string trimmed,
/// when that is not empty; else the JSON text of the whole result.
pub open spec fn result_content_of(v: serde_json::Value) -> Seq<char> {
    match json_str_field(v, "content"@) {
        Some(c) => if trim(c).len() > 0 {
            trim(c)
        } else {
            json_text_of(v)
        },
        None => json_text_of(v),
    }
}

/// The whole text of a tool result: its `content` string as it is, else the
/// JSON text of the result.
pub open spec fn result_full_text_of(v: serde_json::Value) -> Seq<char> {
    match json_str_field(v, "content"@) {
        Some(c) => c,
        None => json_text_of(v),
    }
}

fn json_text(v: &serde_json::Value) -> (r: String)
    ensures
        r@ == json_text_of(*v),
{
    match json_to_text(v) {
        Some(t) => t,
        None => String::new(),
    }
}

/// The text a tool result is answered with.
pub fn tool_result_content(output: &serde_json::Value) -> (r: String)
    ensures
        r@ == result_content_of(*output),
{
    match json_get_str(output, "content") {
        Some(c) => {
            let t = str_trim(c.as_str());
            if char_count(t.as_str()) > 0 {
                t
            } else {
                json_text(output)
            }
        },
        None => json_text(output),
    }
}

/// Where and what an offloaded tool result is written.
#[derive(Debug)]
pub struct OffloadPlan {
    pub path: String,
    pub full_text: String,
    pub total_chars: usize,
}

/// Whether a tool result is written to a file, and if so where and what:
/// the whole text, when offloading is wanted for its tool and length, goes
/// to the file named after the call under the prefix.
pub fn plan_offload(opts: &LargeToolResultOffloadOptions, tool_name: &str, call_id: &str, output: &serde_json::Value) -> (r:
    Option<OffloadPlan>)
    ensures
        r is Some <==> offload_wanted(*opts, tool_name@, result_full_text_of(*output).len()),
        r matches Some(p) ==> {
            &&& p.full_text@ == result_full_text_of(*output)
            &&& p.total_chars == result_full_text_of(*output).len()
            &&& p.path@ == offload_path_of(opts.prefix@, call_id@)
        },
{
    let full_text = match json_get_str(output, "content") {
        Some(c) => c,
        None => json_text(output),
    };
    let total_chars = char_count(full_text.as_str());
    if !should_offload(opts, tool_name, total_chars) {
        return None;
    }
    let path = offload_path(opts.prefix.as_str(), call_id);
    Some(OffloadPlan { path, full_text, total_chars })
}


/// The label under which the kind of a result that is not an object is kept.
pub open spec fn kind_label(k: JsonKind) -> Seq<char> {
    match k {
        JsonKind::Null => "null"@,
        JsonKind::Bool => "bool"@,
        JsonKind::Number => "number"@,
        JsonKind::String => "string"@,
        JsonKind::Array => "array"@,
        JsonKind::Object => "object"@,
    }
}

fn kind_name(k: JsonKind) -> (r: &'static str)
    ensures
        r@ == kind_label(k),
{
    match k {
        JsonKind::Null => "null",
        JsonKind::Bool => "bool",
        JsonKind::Number => "number",
        JsonKind::String => "string",
        JsonKind::Array => "array",
        JsonKind::Object => "object",
    }
}

/// The keys that offloading writes into a result.
pub open spec fn is_offload_key(k: Seq<char>) -> bool {
    ||| k == "offloaded"@
    ||| k == "offload_path"@
    ||| k == "offload_total_chars"@
    ||| k == "offload_head"@
    ||| k == "offload_tail"@
    ||| k == "content"@
}

/// The text left under `content` of an offloaded object result.
pub open spec fn offloaded_content_note(path: Seq<char>) -> Seq<char> {
    "(offloaded to "@ + path + "; use read_file)"@
}

/// `r` is the result `output` rewritten after its text went to `path`: an
/// object with `offloaded` true, the path, the length, the preview head and
/// tail. An object result keeps its other members and its `content` points
/// at the file; any other result is replaced by an object that records its
/// kind under `output_type` and holds nothing else.
pub open spec fn is_offloaded_output(
    r: serde_json::Value,
    output: serde_json::Value,
    path: Seq<char>,
    total_chars: usize,
    head: Seq<char>,
    tail: Seq<char>,
) -> bool {
    &&& json_kind_of(r) == JsonKind::Object
    &&& json_field_of(r, "offloaded"@) matches Some(b) && json_kind_of(b) == JsonKind::Bool && json_bool_of(b) == Some(true)
    &&& text_field(r, "offload_path"@, path)
    &&& json_field_of(r, "offload_total_chars"@) matches Some(n) && json_kind_of(n) == JsonKind::Number
        && json_u64_of(n) == Some(total_chars as u64)
    &&& text_field(r, "offload_head"@, head)
    &&& text_field(r, "offload_tail"@, tail)
    &&& if json_kind_of(output) == JsonKind::Object {
        &&& text_field(r, "content"@, offloaded_content_note(path))
        &&& forall|k: Seq<char>| !is_offload_key(k) ==> #[trigger] json_field_of(r, k) == json_field_of(output, k)
    } else {
        &&& text_field(r, "content"@, "(offloaded; use read_file)"@)
        &&& text_field(r, "output_type"@, kind_label(json_kind_of(output)))
        &&& forall|k: Seq<char>| !is_offload_key(k) && k != "output_type"@ ==> #[trigger] json_field_of(r, k) is None
    }
}

proof fn lemma_offload_keys()
    ensures
        "offloaded"@.len() == 9,
        "offload_path"@.len() == 12,
        "offload_total_chars"@.len() == 19,
        "offload_head"@.len() == 12,
        "offload_tail"@.len() == 12,
        "content"@.len() == 7,
        "output_type"@.len() == 11,
        "offload_path"@ != "offload_head"@,
        "offload_path"@ != "offload_tail"@,
        "offload_head"@ != "offload_tail"@,
{
    reveal_strlit("offloaded");
    reveal_strlit("offload_path");
    reveal_strlit("offload_total_chars");
    reveal_strlit("offload_head");
    reveal_strlit("offload_tail");
    reveal_strlit("content");
    reveal_strlit("output_type");
    assert("offload_path"@[8] != "offload_head"@[8]);
    assert("offload_path"@[8] != "offload_tail"@[8]);
    assert("offload_head"@[8] != "offload_tail"@[8]);
}

/// Writes the offload fields into an object value.
fn put_offload_fields(v: &mut serde_json::Value, plan: &OffloadPlan, head: &str, tail: &str, content: &str)
    requires
        json_kind_of(*old(v)) == JsonKind::Object,
    ensures
        json_kind_of(*final(v)) == JsonKind::Object,
        json_field_of(*final(v), "offloaded"@) matches Some(b) && json_kind_of(b) == JsonKind::Bool && json_bool_of(b) == Some(true),
        text_field(*final(v), "offload_path"@, plan.path@),
        json_field_of(*final(v), "offload_total_chars"@) matches Some(n) && json_kind_of(n) == JsonKind::Number
            && json_u64_of(n) == Some(plan.total_chars as u64),
        text_field(*final(v), "offload_head"@, head@),
        text_field(*final(v), "offload_tail"@, tail@),
        text_field(*final(v), "content"@, content@),
        forall|k: Seq<char>| !is_offload_key(k) ==> #[trigger] json_field_of(*final(v), k) == json_field_of(*old(v), k),
{
    proof {
        lemma_offload_keys();
    }
    json_insert_field(v, "offloaded", json_from_bool(true));
    json_insert_field(v, "offload_path", json_from_str(plan.path.as_str()));
    json_insert_field(v, "offload_total_chars", json_from_u64(plan.total_chars as u64));
    json_insert_field(v, "offload_head", json_from_str(head));
    json_insert_field(v, "offload_tail", json_from_str(tail));
    json_insert_field(v, "content", json_from_str(content));
}

/// The tool result as it stands after its text was written to the file of
/// the plan, with the preview `head` and `tail`.
pub fn offloaded_output(output: serde_json::Value, plan: &OffloadPlan, head: &str, tail: &str) -> (r: serde_json::Value)
    ensures
        is_offloaded_output(r, output, plan.path@, plan.total_chars, head@, tail@),
{
    proof {
        lemma_offload_keys();
    }
    let kind = json_kind(&output);
    match kind {
        JsonKind::Object => {
            let mut v = output;
            let mut note = owned("(offloaded to ");
            push_str(&mut note, plan.path.as_str());
            push_str(&mut note, "; use read_file)");
            put_offload_fields(&mut v, plan, head, tail, note.as_str());
            v
        },
        _ => {
            let mut v = json_empty_object();
            put_offload_fields(&mut v, plan, head, tail, "(offloaded; use read_file)");
            let ghost before = v;
            json_insert_field(&mut v, "output_type", json_from_str(kind_name(kind)));
            assert forall|k: Seq<char>| !is_offload_key(k) && k != "output_type"@ implies #[trigger] json_field_of(v, k) is None by {
                assert(json_field_of(before, k) == json_field_of(v, k));
            }
            v
        },
    }
}

/// The record of an offload kept in the state: the tool, the call, the
/// file and the length.
pub open spec fn is_offload_event(e: serde_json::Value, tool_name: Seq<char>, call_id: Seq<char>, path: Seq<char>, total_chars: usize) -> bool {
    &&& json_kind_of(e) == JsonKind::Object
    &&& text_field(e, "tool_name"@, tool_name)
    &&& text_field(e, "call_id"@, call_id)
    &&& text_field(e, "path"@, path)
    &&& json_field_of(e, "total_chars"@) matches Some(n) && json_kind_of(n) == JsonKind::Number
        && json_u64_of(n) == Some(total_chars as u64)
    &&& forall|k: Seq<char>|
        k != "tool_name"@ && k != "call_id"@ && k != "path"@ && k != "total_chars"@ ==> #[trigger] json_field_of(e, k) is None
}

/// The state key the last offload is recorded under.
pub open spec fn offload_event_key() -> Seq<char> {
    "_large_tool_result_offload_event"@
}

proof fn lemma_event_keys()
    ensures
        "tool_name"@.len() == 9,
        "call_id"@.len() == 7,
        "path"@.len() == 4,
        "total_chars"@.len() == 11,
{
    reveal_strlit("tool_name");
    reveal_strlit("call_id");
    reveal_strlit("path");
    reveal_strlit("total_chars");
}

fn offload_event(tool_name: &str, call_id: &str, plan: &OffloadPlan) -> (r: serde_json::Value)
    ensures
        is_offload_event(r, tool_name@, call_id@, plan.path@, plan.total_chars),
{
    proof {
        lemma_event_keys();
    }
    let mut e = json_empty_object();
    json_insert_field(&mut e, "tool_name", json_from_str(tool_name));
    json_insert_field(&mut e, "call_id", json_from_str(call_id));
    json_insert_field(&mut e, "path", json_from_str(plan.path.as_str()));
    json_insert_field(&mut e, "total_chars", json_from_u64(plan.total_chars as u64));
    e
}

/// What a tool result becomes once its text was written to the file of the
/// plan: the rewritten result, and the message left in the conversation
/// with the first and last `preview_max_lines` lines; the state records the
/// offload under its key.
pub fn finish_offload(
    state: &mut AgentState,
    tool_name: &str,
    call_id: &str,
    output: serde_json::Value,
    plan: &OffloadPlan,
    preview_max_lines: usize,
) -> (r: (serde_json::Value, String))
    ensures
        is_offloaded_output(
            r.0,
            output,
            plan.path@,
            plan.total_chars,
            head_tail_of(plan.full_text@, preview_max_lines as nat).0,
            head_tail_of(plan.full_text@, preview_max_lines as nat).1,
        ),
        r.1@ == offload_note(
            plan.path@,
            head_tail_of(plan.full_text@, preview_max_lines as nat).0,
            head_tail_of(plan.full_text@, preview_max_lines as nat).1,
        ),
        final(state).extra.map().dom().contains(offload_event_key()),
        is_offload_event(final(state).extra.map()[offload_event_key()], tool_name@, call_id@, plan.path@, plan.total_chars),
        final(state).extra.map() == old(state).extra.map().insert(offload_event_key(), final(state).extra.map()[offload_event_key()]),
        final(state).filesystem == old(state).filesystem,
        final(state).todos == old(state).todos,
        final(state).private == old(state).private,
{
    let (head, tail) = preview_head_tail_lines(plan.full_text.as_str(), preview_max_lines);
    let note = offloaded_message(plan.path.as_str(), head.as_str(), tail.as_str());
    let out = offloaded_output(output, plan, head.as_str(), tail.as_str());
    let event = offload_event(tool_name, call_id, plan);
    state.extra.insert(owned("_large_tool_result_offload_event"), event);
    (out, note)
}

} // verus!
