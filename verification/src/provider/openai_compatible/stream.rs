//! Assembly of a streamed chat completion: each chunk's deltas folded into
//! the text, reasoning and tool calls seen so far, the events they give,
//! and the step that the finished stream makes.
use vstd::prelude::*;

use crate::json::{JsonKind, json_empty_object, tree_is_empty_object, json_kind_of, json_parse, json_parse_outcome, json_tree_of};
use crate::provider::openai_compatible::provider::{data_url_parts, parse_data_url_content_block};
use crate::provider::protocol::{AgentProviderEvent, AgentStep, AgentToolCall};
use crate::text::{is_blank, owned, push_str, str_eq, str_is_blank, str_len};
use crate::types::{ContentBlock, blocks_fallback, clone_opt, fallback_text_for_content_blocks, opt_str_view};

verus! {

/// One part of a content delta that comes in parts.
#[derive(Debug)]
pub struct ContentPart {
    /// `"text"`, `"refusal"`, `"image_url"` or another kind.
    pub kind: String,
    pub text: Option<String>,
    pub refusal: Option<String>,
    pub image_url: Option<String>,
}

/// The content of a delta: plain text, or parts.
#[derive(Debug)]
pub enum DeltaContent {
    Text(String),
    Parts(Vec<ContentPart>),
}

/// A piece of one tool call: its position among the calls, and what of its
/// id, name and arguments this chunk carries.
#[derive(Debug)]
pub struct ToolCallDelta {
    pub index: usize,
    pub id: Option<String>,
    pub name: Option<String>,
    pub arguments: Option<String>,
}

/// One choice of a chunk.
#[derive(Debug)]
pub struct ChunkChoice {
    pub content: Option<DeltaContent>,
    pub reasoning_content: Option<String>,
    pub tool_calls: Option<Vec<ToolCallDelta>>,
    pub finish_reason: Option<String>,
}

/// Token counts a chunk may report.
#[derive(Debug, Clone, Copy, PartialEq, Eq, Structural)]
pub struct ChunkUsage {
    pub prompt_tokens: Option<u64>,
    pub completion_tokens: Option<u64>,
    pub total_tokens: Option<u64>,
}

/// One chunk of a streamed chat completion.
#[derive(Debug)]
pub struct ChatChunk {
    pub usage: Option<ChunkUsage>,
    pub choices: Vec<ChunkChoice>,
}

/// A content block by its views: type, MIME type, payload and URL.
pub type BlockView = (Seq<char>, Option<Seq<char>>, Option<Seq<char>>, Option<Seq<char>>);

pub open spec fn block_view(b: ContentBlock) -> BlockView {
    (b.block_type@, opt_str_view(b.mime_type), opt_str_view(b.base64), opt_str_view(b.url))
}

/// The block an image URL gives: the inline image of a base64 data URL,
/// else an image by URL.
pub open spec fn image_block(url: Seq<char>) -> BlockView {
    match data_url_parts(url) {
        Some((m, d)) => ("image_base64"@, Some(m), Some(d), None),
        None => ("image_url"@, None, None, Some(url)),
    }
}

/// The text a part adds: that of a text part, or the refusal of a refusal part.
pub open spec fn part_text(p: ContentPart) -> Seq<char> {
    if p.kind@ == "text"@ {
        match p.text {
            Some(t) => t@,
            None => Seq::empty(),
        }
    } else if p.kind@ == "refusal"@ {
        match p.refusal {
            Some(t) => t@,
            None => Seq::empty(),
        }
    } else {
        Seq::empty()
    }
}

pub open spec fn parts_text(ps: Seq<ContentPart>) -> Seq<char>
    decreases ps.len(),
{
    if ps.len() == 0 {
        Seq::empty()
    } else {
        parts_text(ps.drop_last()) + part_text(ps.last())
    }
}

/// The blocks of the image parts that carry a URL, in order.
pub open spec fn parts_blocks(ps: Seq<ContentPart>) -> Seq<BlockView>
    decreases ps.len(),
{
    if ps.len() == 0 {
        Seq::empty()
    } else {
        let p = ps.last();
        if p.kind@ == "image_url"@ && p.image_url is Some {
            parts_blocks(ps.drop_last()).push(image_block(p.image_url.unwrap()@))
        } else {
            parts_blocks(ps.drop_last())
        }
    }
}

/// Some part is an image part.
pub open spec fn parts_multimodal(ps: Seq<ContentPart>) -> bool
    decreases ps.len(),
{
    ps.len() > 0 && (parts_multimodal(ps.drop_last()) || ps.last().kind@ == "image_url"@)
}

/// Text, blocks and whether images were seen, of a content delta.
pub open spec fn content_parsed(c: DeltaContent) -> (Seq<char>, Seq<BlockView>, bool) {
    match c {
        DeltaContent::Text(t) => (t@, Seq::empty(), false),
        DeltaContent::Parts(ps) => (parts_text(ps@), parts_blocks(ps@), parts_multimodal(ps@)),
    }
}

/// The block for an image URL part.
pub fn image_content_block(url: &str) -> (r: ContentBlock)
    ensures
        block_view(r) == image_block(url@),
{
    match parse_data_url_content_block(url) {
        Some(b) => b,
        None => ContentBlock::image_url(url),
    }
}

/// Reads a content delta into its text, blocks and whether it held images.
pub fn parse_delta_content(c: &DeltaContent) -> (r: (String, Vec<ContentBlock>, bool))
    ensures
        (r.0@, r.1@.map_values(|b: ContentBlock| block_view(b)), r.2) == content_parsed(*c),
{
    match c {
        DeltaContent::Text(t) => {
            let out: Vec<ContentBlock> = Vec::new();
            assert(out@.map_values(|b: ContentBlock| block_view(b)) =~= Seq::<BlockView>::empty());
            (t.clone(), out, false)
        },
        DeltaContent::Parts(ps) => {
            let mut text = String::new();
            let mut blocks: Vec<ContentBlock> = Vec::new();
            let mut saw = false;
            let mut i: usize = 0;
            proof {
                assert(ps@.take(0) =~= Seq::<ContentPart>::empty());
                assert(blocks@.map_values(|b: ContentBlock| block_view(b)) =~= Seq::<BlockView>::empty());
            }
            while i < ps.len()
                invariant
                    i <= ps.len(),
                    text@ == parts_text(ps@.take(i as int)),
                    blocks@.map_values(|b: ContentBlock| block_view(b)) == parts_blocks(ps@.take(i as int)),
                    saw == parts_multimodal(ps@.take(i as int)),
                decreases ps.len() - i,
            {
                let p = &ps[i];
                let ghost before = blocks@;
                let ghost q = ps@.take(i as int + 1);
                assert(ps@.take(i as int + 1).drop_last() =~= ps@.take(i as int));
                assert(ps@.take(i as int + 1).last() == ps@[i as int]);
                proof {
                    reveal_strlit("text");
                    reveal_strlit("refusal");
                    reveal_strlit("image_url");
                    assert(parts_blocks(q) == if p.kind@ == "image_url"@ && p.image_url is Some {
                        parts_blocks(ps@.take(i as int)).push(image_block(p.image_url.unwrap()@))
                    } else {
                        parts_blocks(ps@.take(i as int))
                    });
                    assert(parts_multimodal(q) == (saw || p.kind@ == "image_url"@));
                    assert("text"@.len() == 4 && "refusal"@.len() == 7 && "image_url"@.len() == 9);
                }
                if str_eq(p.kind.as_str(), "text") {
                    if let Some(t) = &p.text {
                        push_str(&mut text, t.as_str());
                    } else {
                        assert(text@ =~= text@ + Seq::<char>::empty());
                    }
                } else if str_eq(p.kind.as_str(), "refusal") {
                    if let Some(t) = &p.refusal {
                        push_str(&mut text, t.as_str());
                    } else {
                        assert(text@ =~= text@ + Seq::<char>::empty());
                    }
                } else {
                    assert(text@ =~= text@ + Seq::<char>::empty());
                    if str_eq(p.kind.as_str(), "image_url") {
                        saw = true;
                        if let Some(u) = &p.image_url {
                            let b = image_content_block(u.as_str());
                            blocks.push(b);
                            assert(blocks@.map_values(|b: ContentBlock| block_view(b)) =~= before.map_values(
                                |b: ContentBlock| block_view(b),
                            ).push(block_view(b)));
                        }
                    }
                }
                i = i + 1;
            }
            assert(ps@.take(ps.len() as int) =~= ps@);
            (text, blocks, saw)
        },
    }
}

/// A tool call being assembled, by its views.
pub struct PartialCallView {
    pub index: usize,
    pub id: Option<Seq<char>>,
    pub name: Option<Seq<char>>,
    pub arguments: Seq<char>,
}

/// An event by its views.
pub enum EventView {
    TextDelta(Seq<char>),
    ArgsDelta(Seq<char>, Seq<char>),
    Usage(Option<u64>, Option<u64>, Option<u64>),
}

pub open spec fn event_view(e: AgentProviderEvent) -> EventView {
    match e {
        AgentProviderEvent::AssistantTextDelta { text } => EventView::TextDelta(text@),
        AgentProviderEvent::ToolCallArgsDelta { tool_call_id, delta } => EventView::ArgsDelta(tool_call_id@, delta@),
        AgentProviderEvent::Usage { input_tokens, output_tokens, total_tokens } => EventView::Usage(
            input_tokens,
            output_tokens,
            total_tokens,
        ),
    }
}

pub open spec fn events_view(es: Seq<AgentProviderEvent>) -> Seq<EventView> {
    es.map_values(|e: AgentProviderEvent| event_view(e))
}

/// What the stream has given so far.
pub struct StreamView {
    pub text: Seq<char>,
    pub blocks: Seq<BlockView>,
    pub saw_multimodal: bool,
    pub reasoning: Seq<char>,
    /// The tool calls by position, in increasing order of it.
    pub calls: Seq<PartialCallView>,
    pub finished: bool,
}

/// A tool call being assembled from its deltas.
#[derive(Debug)]
pub struct PartialToolCall {
    pub index: usize,
    pub id: Option<String>,
    pub name: Option<String>,
    pub arguments: String,
}

pub open spec fn call_view(c: PartialToolCall) -> PartialCallView {
    PartialCallView { index: c.index, id: opt_str_view(c.id), name: opt_str_view(c.name), arguments: c.arguments@ }
}

/// The state of a stream being assembled.
#[derive(Debug)]
pub struct StreamAssembly {
    pub text: String,
    pub content_blocks: Vec<ContentBlock>,
    pub saw_multimodal_content: bool,
    pub reasoning_content: String,
    /// Kept in increasing order of position, one entry per position.
    pub tool_calls: Vec<PartialToolCall>,
    pub finished: bool,
}

impl View for StreamAssembly {
    type V = StreamView;

    open spec fn view(&self) -> StreamView {
        StreamView {
            text: self.text@,
            blocks: self.content_blocks@.map_values(|b: ContentBlock| block_view(b)),
            saw_multimodal: self.saw_multimodal_content,
            reasoning: self.reasoning_content@,
            calls: self.tool_calls@.map_values(|c: PartialToolCall| call_view(c)),
            finished: self.finished,
        }
    }
}

/// The calls are in strictly increasing order of position.
pub open spec fn calls_sorted(calls: Seq<PartialCallView>) -> bool {
    forall|i: int, j: int| 0 <= i < j < calls.len() ==> #[trigger] calls[i].index < #[trigger] calls[j].index
}

/// `p` is where position `index` stands or would be inserted: every call
/// before it has a smaller position, the one at it (if any) no smaller.
pub open spec fn slot_ok(calls: Seq<PartialCallView>, index: usize, p: int) -> bool {
    &&& 0 <= p <= calls.len()
    &&& forall|k: int| 0 <= k < p ==> #[trigger] calls[k].index < index
    &&& p < calls.len() ==> calls[p].index >= index
}

pub open spec fn slot(calls: Seq<PartialCallView>, index: usize) -> int {
    choose|p: int| slot_ok(calls, index, p)
}

/// There is a call at position `index`.
pub open spec fn has_entry(calls: Seq<PartialCallView>, index: usize) -> bool {
    slot(calls, index) < calls.len() && calls[slot(calls, index)].index == index
}

/// The call at position `index`, or an empty one.
pub open spec fn entry_at(calls: Seq<PartialCallView>, index: usize) -> PartialCallView {
    if has_entry(calls, index) {
        calls[slot(calls, index)]
    } else {
        PartialCallView { index, id: None, name: None, arguments: Seq::empty() }
    }
}

/// The calls with the one at position `index` replaced, or inserted, by `e`.
pub open spec fn put_entry(calls: Seq<PartialCallView>, index: usize, e: PartialCallView) -> Seq<PartialCallView> {
    if has_entry(calls, index) {
        calls.update(slot(calls, index), e)
    } else {
        calls.insert(slot(calls, index), e)
    }
}

/// What a delta does to its call, and the argument events it gives. A new
/// id flushes the arguments gathered while the id was unknown; arguments
/// are echoed as they come once the id is known. A call whose id is
/// unknown has echoed nothing yet.
pub open spec fn delta_on_entry(e: PartialCallView, d: ToolCallDelta) -> (PartialCallView, Seq<EventView>) {
    let (e1, ev1) = match d.id {
        Some(id) => (
            PartialCallView { id: Some(id@), ..e },
            if e.id is None && e.arguments.len() > 0 {
                seq![EventView::ArgsDelta(id@, e.arguments)]
            } else {
                Seq::empty()
            },
        ),
        None => (e, Seq::empty()),
    };
    let e2 = match d.name {
        Some(n) => PartialCallView { name: Some(n@), ..e1 },
        None => e1,
    };
    match d.arguments {
        Some(a) => {
            let e3 = PartialCallView { arguments: e2.arguments + a@, ..e2 };
            (
                e3,
                match e3.id {
                    Some(id) => ev1.push(EventView::ArgsDelta(id, a@)),
                    None => ev1,
                },
            )
        },
        None => (e2, ev1),
    }
}

/// One tool-call delta applied to the stream.
pub open spec fn apply_delta(s: StreamView, d: ToolCallDelta) -> (StreamView, Seq<EventView>) {
    let (e, ev) = delta_on_entry(entry_at(s.calls, d.index), d);
    (StreamView { calls: put_entry(s.calls, d.index, e), ..s }, ev)
}

/// The tool-call deltas of a choice applied in order.
pub open spec fn apply_deltas(s: StreamView, ds: Seq<ToolCallDelta>) -> (StreamView, Seq<EventView>)
    decreases ds.len(),
{
    if ds.len() == 0 {
        (s, Seq::empty())
    } else {
        let (s1, ev1) = apply_deltas(s, ds.drop_last());
        let (s2, ev2) = apply_delta(s1, ds.last());
        (s2, ev1 + ev2)
    }
}

/// A content delta applied to the stream: its text appended (and echoed
/// when there is any), its blocks appended, images remembered.
pub open spec fn apply_content(s: StreamView, c: DeltaContent) -> (StreamView, Seq<EventView>) {
    let (t, bs, mm) = content_parsed(c);
    (
        StreamView { text: s.text + t, blocks: s.blocks + bs, saw_multimodal: s.saw_multimodal || mm, ..s },
        if t.len() > 0 {
            seq![EventView::TextDelta(t)]
        } else {
            Seq::empty()
        },
    )
}

/// One choice applied: content, then reasoning, then tool calls; a finish
/// reason marks the stream finished.
pub open spec fn apply_choice(s: StreamView, c: ChunkChoice) -> (StreamView, Seq<EventView>) {
    let (s1, ev1) = match c.content {
        Some(ct) => apply_content(s, ct),
        None => (s, Seq::empty()),
    };
    let s2 = match c.reasoning_content {
        Some(r) => StreamView { reasoning: s1.reasoning + r@, ..s1 },
        None => s1,
    };
    let (s3, ev3) = match c.tool_calls {
        Some(ds) => apply_deltas(s2, ds@),
        None => (s2, Seq::empty()),
    };
    (StreamView { finished: s3.finished || c.finish_reason is Some, ..s3 }, ev1 + ev3)
}

pub open spec fn apply_choices(s: StreamView, cs: Seq<ChunkChoice>) -> (StreamView, Seq<EventView>)
    decreases cs.len(),
{
    if cs.len() == 0 {
        (s, Seq::empty())
    } else {
        let (s1, ev1) = apply_choices(s, cs.drop_last());
        let (s2, ev2) = apply_choice(s1, cs.last());
        (s2, ev1 + ev2)
    }
}

/// The usage event of a chunk that reports token counts.
pub open spec fn usage_events(u: Option<ChunkUsage>) -> Seq<EventView> {
    match u {
        Some(u) => seq![EventView::Usage(u.prompt_tokens, u.completion_tokens, u.total_tokens)],
        None => Seq::empty(),
    }
}

/// A chunk applied to the stream: its usage first, then its choices.
pub open spec fn stream_transition(s: StreamView, chunk: ChatChunk) -> (StreamView, Seq<EventView>) {
    let (s1, ev) = apply_choices(s, chunk.choices@);
    (s1, usage_events(chunk.usage) + ev)
}

proof fn lemma_slot(calls: Seq<PartialCallView>, index: usize, p: int)
    requires
        slot_ok(calls, index, p),
    ensures
        slot(calls, index) == p,
{
    let q = slot(calls, index);
    assert(slot_ok(calls, index, q));
    if q < p {
        assert(calls[q].index < index);
    }
    if p < q {
        assert(calls[p].index < index);
    }
}

impl PartialToolCall {
    fn clone_call(&self) -> (r: Self)
        ensures
            call_view(r) == call_view(*self),
    {
        PartialToolCall {
            index: self.index,
            id: clone_opt(&self.id),
            name: clone_opt(&self.name),
            arguments: self.arguments.clone(),
        }
    }
}

impl StreamAssembly {
    /// Nothing seen yet.
    pub fn new() -> (r: Self)
        ensures
            r@ == (StreamView {
                text: Seq::empty(),
                blocks: Seq::empty(),
                saw_multimodal: false,
                reasoning: Seq::empty(),
                calls: Seq::empty(),
                finished: false,
            }),
    {
        let r = StreamAssembly {
            text: String::new(),
            content_blocks: Vec::new(),
            saw_multimodal_content: false,
            reasoning_content: String::new(),
            tool_calls: Vec::new(),
            finished: false,
        };
        assert(r@.blocks =~= Seq::<BlockView>::empty());
        assert(r@.calls =~= Seq::<PartialCallView>::empty());
        r
    }

    /// Applies one tool-call delta, appending the events it gives.
    pub fn apply_tool_call_delta(&mut self, d: &ToolCallDelta, events: &mut Vec<AgentProviderEvent>)
        requires
            calls_sorted(old(self)@.calls),
        ensures
            calls_sorted(final(self)@.calls),
            final(self)@ == apply_delta(old(self)@, *d).0,
            events_view(final(events)@) == events_view(old(events)@) + apply_delta(old(self)@, *d).1,
    {
        let ghost calls0 = self@.calls;
        let mut p: usize = 0;
        while p < self.tool_calls.len() && self.tool_calls[p].index < d.index
            invariant
                p <= self.tool_calls.len(),
                self@.calls == calls0,
                forall|k: int| 0 <= k < p ==> #[trigger] calls0[k].index < d.index,
            decreases self.tool_calls.len() - p,
        {
            p = p + 1;
        }
        proof {
            lemma_slot(calls0, d.index, p as int);
        }
        let found = p < self.tool_calls.len() && self.tool_calls[p].index == d.index;
        let mut e = if found {
            self.tool_calls[p].clone_call()
        } else {
            PartialToolCall { index: d.index, id: None, name: None, arguments: String::new() }
        };
        assert(call_view(e) == entry_at(calls0, d.index));
        let ghost e0 = call_view(e);
        let ghost ev0 = events_view(events@);
        let ghost want = delta_on_entry(e0, *d);
        if let Some(id) = &d.id {
            let flush = e.id.is_none() && str_len(e.arguments.as_str()) > 0;
            e.id = Some(id.clone());
            if flush {
                events.push(AgentProviderEvent::ToolCallArgsDelta { tool_call_id: id.clone(), delta: e.arguments.clone() });
            }
        }
        if let Some(n) = &d.name {
            e.name = Some(n.clone());
        }
        if let Some(a) = &d.arguments {
            push_str(&mut e.arguments, a.as_str());
            if let Some(id) = &e.id {
                events.push(AgentProviderEvent::ToolCallArgsDelta { tool_call_id: id.clone(), delta: a.clone() });
            }
        }
        assert(call_view(e) == want.0);
        assert(events_view(events@) =~= ev0 + want.1);
        let ghost ev = call_view(e);
        if found {
            self.tool_calls.set(p, e);
        } else {
            self.tool_calls.insert(p, e);
        }
        assert(self@.calls =~= put_entry(calls0, d.index, ev));
    }
}

impl StreamAssembly {
    /// Applies a content delta, appending the event it gives.
    pub fn apply_content_delta(&mut self, c: &DeltaContent, events: &mut Vec<AgentProviderEvent>)
        ensures
            final(self)@ == apply_content(old(self)@, *c).0,
            events_view(final(events)@) == events_view(old(events)@) + apply_content(old(self)@, *c).1,
    {
        let ghost ev0 = events_view(events@);
        let ghost b0 = self@.blocks;
        let (t, blocks, saw) = parse_delta_content(c);
        let ghost bs = blocks@.map_values(|b: ContentBlock| block_view(b));
        if str_len(t.as_str()) > 0 {
            push_str(&mut self.text, t.as_str());
            events.push(AgentProviderEvent::AssistantTextDelta { text: t });
            assert(events_view(events@) =~= ev0 + apply_content(old(self)@, *c).1);
        } else {
            assert(t@.len() == 0);
            assert(self.text@ =~= self.text@ + t@);
            assert(events_view(events@) =~= ev0 + apply_content(old(self)@, *c).1);
        }
        let ghost mid = self@;
        let mut i: usize = 0;
        assert(b0 + bs.take(0) =~= b0);
        while i < blocks.len()
            invariant
                i <= blocks.len(),
                bs == blocks@.map_values(|b: ContentBlock| block_view(b)),
                self@.blocks == b0 + bs.take(i as int),
                self@.text == mid.text,
                self@.calls == mid.calls,
                self@.reasoning == mid.reasoning,
                self@.saw_multimodal == mid.saw_multimodal,
                self@.finished == mid.finished,
            decreases blocks.len() - i,
        {
            let ghost before = self.content_blocks@;
            self.content_blocks.push(blocks[i].clone());
            assert(self.content_blocks@.map_values(|b: ContentBlock| block_view(b)) =~= before.map_values(
                |b: ContentBlock| block_view(b),
            ).push(bs[i as int]));
            assert(bs.take(i as int + 1) =~= bs.take(i as int).push(bs[i as int]));
            i = i + 1;
        }
        assert(bs.take(blocks.len() as int) =~= bs);
        self.saw_multimodal_content = self.saw_multimodal_content || saw;
        assert(self@.text =~= apply_content(old(self)@, *c).0.text);
        assert(self@.blocks =~= apply_content(old(self)@, *c).0.blocks);
        assert(self@.calls =~= apply_content(old(self)@, *c).0.calls);
    }

    /// Applies one choice, appending the events it gives.
    pub fn apply_chunk_choice(&mut self, c: &ChunkChoice, events: &mut Vec<AgentProviderEvent>)
        requires
            calls_sorted(old(self)@.calls),
        ensures
            calls_sorted(final(self)@.calls),
            final(self)@ == apply_choice(old(self)@, *c).0,
            events_view(final(events)@) == events_view(old(events)@) + apply_choice(old(self)@, *c).1,
    {
        let ghost ev0 = events_view(events@);
        if let Some(ct) = &c.content {
            self.apply_content_delta(ct, events);
        }
        let ghost ev1 = events_view(events@);
        if let Some(r) = &c.reasoning_content {
            push_str(&mut self.reasoning_content, r.as_str());
        }
        let ghost s2 = self@;
        if let Some(ds) = &c.tool_calls {
            let mut i: usize = 0;
            proof {
                assert(ds@.take(0) =~= Seq::<ToolCallDelta>::empty());
                assert(events_view(events@) =~= ev1 + Seq::<EventView>::empty());
            }
            while i < ds.len()
                invariant
                    i <= ds.len(),
                    calls_sorted(self@.calls),
                    self@ == apply_deltas(s2, ds@.take(i as int)).0,
                    events_view(events@) == ev1 + apply_deltas(s2, ds@.take(i as int)).1,
                decreases ds.len() - i,
            {
                assert(ds@.take(i as int + 1).drop_last() =~= ds@.take(i as int));
                self.apply_tool_call_delta(&ds[i], events);
                assert(events_view(events@) =~= ev1 + apply_deltas(s2, ds@.take(i as int + 1)).1);
                i = i + 1;
            }
            assert(ds@.take(ds.len() as int) =~= ds@);
        } else {
            assert(events_view(events@) =~= ev1 + Seq::<EventView>::empty());
        }
        if c.finish_reason.is_some() {
            self.finished = true;
        }
        assert(events_view(events@) =~= ev0 + apply_choice(old(self)@, *c).1);
    }
}

/// Folds one chunk into the stream and returns the events it gives, in
/// order: usage, then per choice its text and its tool-call arguments.
pub fn stream_step(state: &mut StreamAssembly, chunk: &ChatChunk) -> (r: Vec<AgentProviderEvent>)
    requires
        calls_sorted(old(state)@.calls),
    ensures
        calls_sorted(final(state)@.calls),
        (final(state)@, events_view(r@)) == stream_transition(old(state)@, *chunk),
{
    let mut events: Vec<AgentProviderEvent> = Vec::new();
    if let Some(u) = &chunk.usage {
        events.push(AgentProviderEvent::Usage {
            input_tokens: u.prompt_tokens,
            output_tokens: u.completion_tokens,
            total_tokens: u.total_tokens,
        });
    }
    let ghost s0 = state@;
    let ghost u = events_view(events@);
    assert(u =~= usage_events(chunk.usage));
    let mut i: usize = 0;
    proof {
        assert(chunk.choices@.take(0) =~= Seq::<ChunkChoice>::empty());
        assert(events_view(events@) =~= u + Seq::<EventView>::empty());
    }
    while i < chunk.choices.len()
        invariant
            i <= chunk.choices.len(),
            calls_sorted(state@.calls),
            state@ == apply_choices(s0, chunk.choices@.take(i as int)).0,
            events_view(events@) == u + apply_choices(s0, chunk.choices@.take(i as int)).1,
        decreases chunk.choices.len() - i,
    {
        assert(chunk.choices@.take(i as int + 1).drop_last() =~= chunk.choices@.take(i as int));
        state.apply_chunk_choice(&chunk.choices[i], &mut events);
        assert(events_view(events@) =~= u + apply_choices(s0, chunk.choices@.take(i as int + 1)).1);
        i = i + 1;
    }
    assert(chunk.choices@.take(chunk.choices.len() as int) =~= chunk.choices@);
    events
}

/// The text of the assistant message: the streamed text; else the
/// placeholder of its blocks; else, when images came, a note saying so.
pub open spec fn finalized_text(text: Seq<char>, blocks: Seq<ContentBlock>, saw_multimodal: bool) -> Seq<char> {
    if text.len() > 0 {
        text
    } else {
        match blocks_fallback(blocks) {
            Some(f) => f,
            None => if saw_multimodal {
                "(assistant returned multimodal content)"@
            } else {
                Seq::empty()
            },
        }
    }
}

/// The text of the assistant message, as [`finalized_text`] gives it.
pub fn finalized_assistant_text(text: String, blocks: &[ContentBlock], saw_multimodal: bool) -> (r: String)
    ensures
        r@ == finalized_text(text@, blocks@, saw_multimodal),
{
    if str_len(text.as_str()) > 0 {
        return text;
    }
    match fallback_text_for_content_blocks(blocks) {
        Some(f) => f,
        None => if saw_multimodal {
            owned("(assistant returned multimodal content)")
        } else {
            String::new()
        },
    }
}

/// An object with no member.
pub open spec fn is_empty_object(v: serde_json::Value) -> bool {
    json_kind_of(v) == JsonKind::Object && tree_is_empty_object(json_tree_of(v))
}

/// A finished call: its id, its name and its arguments, `None` standing for
/// blank arguments, which become an empty object. A call without an id or
/// a name, or whose arguments are not JSON, is an error.
pub open spec fn call_outcome(c: PartialCallView) -> Result<(Seq<char>, Seq<char>, Option<serde_json::Value>), Seq<char>> {
    match c.id {
        None => Err("openai_stream_tool_call_missing_id"@),
        Some(id) => match c.name {
            None => Err("openai_stream_tool_call_missing_name"@),
            Some(n) => if is_blank(c.arguments) {
                Ok((id, n, None))
            } else {
                match json_parse_outcome(c.arguments) {
                    Ok(v) => Ok((id, n, Some(v))),
                    Err(e) => Err(e),
                }
            },
        },
    }
}

/// The finished calls in order, or the error of the first that fails.
pub open spec fn calls_outcome(cs: Seq<PartialCallView>) -> Result<Seq<(Seq<char>, Seq<char>, Option<serde_json::Value>)>, Seq<char>>
    decreases cs.len(),
{
    if cs.len() == 0 {
        Ok(Seq::empty())
    } else {
        match calls_outcome(cs.drop_last()) {
            Err(e) => Err(e),
            Ok(done) => match call_outcome(cs.last()) {
                Err(e) => Err(e),
                Ok(c) => Ok(done.push(c)),
            },
        }
    }
}

/// A provider tool call is the finished call `o`.
pub open spec fn call_matches(c: AgentToolCall, o: (Seq<char>, Seq<char>, Option<serde_json::Value>)) -> bool {
    &&& opt_str_view(c.call_id) == Some(o.0)
    &&& c.tool_name@ == o.1
    &&& match o.2 {
        Some(v) => c.arguments == v,
        None => is_empty_object(c.arguments),
    }
}

pub open spec fn calls_match(v: Seq<AgentToolCall>, os: Seq<(Seq<char>, Seq<char>, Option<serde_json::Value>)>) -> bool {
    v.len() == os.len() && forall|k: int| 0 <= k < v.len() ==> call_matches(#[trigger] v[k], os[k])
}

proof fn lemma_outcome_err(cs: Seq<PartialCallView>, i: int, e: Seq<char>)
    requires
        0 <= i <= cs.len(),
        calls_outcome(cs.take(i)) == Err::<Seq<(Seq<char>, Seq<char>, Option<serde_json::Value>)>, Seq<char>>(e),
    ensures
        calls_outcome(cs) == Err::<Seq<(Seq<char>, Seq<char>, Option<serde_json::Value>)>, Seq<char>>(e),
    decreases cs.len() - i,
{
    if i == cs.len() {
        assert(cs.take(i) =~= cs);
    } else {
        assert(cs.take(i + 1).drop_last() =~= cs.take(i));
        lemma_outcome_err(cs, i + 1, e);
    }
}

/// The provider tool calls of the assembled calls, in order of position.
pub fn assemble_tool_calls(calls: &Vec<PartialToolCall>) -> (r: Result<Vec<AgentToolCall>, String>)
    ensures
        match calls_outcome(calls@.map_values(|c: PartialToolCall| call_view(c))) {
            Err(e) => r matches Err(x) && x@ == e,
            Ok(os) => r matches Ok(v) && calls_match(v@, os),
        },
{
    let ghost cv = calls@.map_values(|c: PartialToolCall| call_view(c));
    let mut out: Vec<AgentToolCall> = Vec::new();
    let mut i: usize = 0;
    assert(cv.take(0) =~= Seq::<PartialCallView>::empty());
    while i < calls.len()
        invariant
            i <= calls.len(),
            cv == calls@.map_values(|c: PartialToolCall| call_view(c)),
            out.len() == i,
            calls_outcome(cv.take(i as int)) matches Ok(os) && calls_match(out@, os),
        decreases calls.len() - i,
    {
        assert(cv.take(i as int + 1).drop_last() =~= cv.take(i as int));
        assert(cv.take(i as int + 1).last() == cv[i as int]);
        let c = &calls[i];
        let id = match &c.id {
            Some(x) => x.clone(),
            None => {
                proof {
                    lemma_outcome_err(cv, i as int + 1, "openai_stream_tool_call_missing_id"@);
                }
                return Err(owned("openai_stream_tool_call_missing_id"));
            },
        };
        let name = match &c.name {
            Some(x) => x.clone(),
            None => {
                proof {
                    lemma_outcome_err(cv, i as int + 1, "openai_stream_tool_call_missing_name"@);
                }
                return Err(owned("openai_stream_tool_call_missing_name"));
            },
        };
        let arguments = if str_is_blank(c.arguments.as_str()) {
            json_empty_object()
        } else {
            match json_parse(c.arguments.as_str()) {
                Ok(v) => v,
                Err(e) => {
                    proof {
                        lemma_outcome_err(cv, i as int + 1, e@);
                    }
                    return Err(e);
                },
            }
        };
        let ghost os = calls_outcome(cv.take(i as int))->Ok_0;
        let call = AgentToolCall { tool_name: name, arguments, call_id: Some(id) };
        let ghost out0 = out@;
        assert(calls_match(out0, os));
        out.push(call);
        assert(calls_outcome(cv.take(i as int + 1)) == Ok::<Seq<(Seq<char>, Seq<char>, Option<serde_json::Value>)>, Seq<char>>(
            os.push(call_outcome(cv[i as int])->Ok_0),
        ));
        assert(calls_match(out@, os.push(call_outcome(cv[i as int])->Ok_0))) by {
            assert forall|k: int| 0 <= k < out@.len() implies call_matches(
                #[trigger] out@[k],
                os.push(call_outcome(cv[i as int])->Ok_0)[k],
            ) by {
                if k < i {
                    assert(out@[k] == out0[k]);
                    assert(call_matches(out0[k], os[k]));
                }
            }
        }
        i = i + 1;
    }
    assert(cv.take(calls.len() as int) =~= cv);
    Ok(out)
}

/// A finished step: what the model said or asked, with the blocks and the
/// reasoning the stream carried.
#[derive(Debug)]
pub struct AssembledStep {
    pub step: AgentStep,
    pub content_blocks: Option<Vec<ContentBlock>>,
    pub reasoning_content: Option<String>,
}

/// The step of a finished stream whose calls finished as `os`: final text
/// when there is no call, else the calls, with the text when there is any;
/// blocks and reasoning kept when there are any.
pub open spec fn step_assembled(
    state: StreamAssembly,
    os: Seq<(Seq<char>, Seq<char>, Option<serde_json::Value>)>,
    out: AssembledStep,
) -> bool {
    let text = finalized_text(state.text@, state.content_blocks@, state.saw_multimodal_content);
    &&& if os.len() == 0 {
        out.step matches AgentStep::FinalText { text: t } && t@ == text
    } else if text.len() == 0 {
        out.step matches AgentStep::ToolCalls { calls } && calls_match(calls@, os)
    } else {
        out.step matches AgentStep::AssistantMessageWithToolCalls { text: t, calls } && t@ == text && calls_match(
            calls@,
            os,
        )
    }
    &&& if state.content_blocks@.len() == 0 {
        out.content_blocks is None
    } else {
        out.content_blocks matches Some(b) && b@ == state.content_blocks@
    }
    &&& opt_str_view(out.reasoning_content) == if state.reasoning_content@.len() == 0 {
        None
    } else {
        Some(state.reasoning_content@)
    }
}

/// The step a stream makes once its chunks are over. A stream that never
/// gave a finish reason is an error, and so is a tool call that cannot be
/// finished (see [`call_outcome`]).
pub fn stream_finish(state: StreamAssembly) -> (r: Result<AssembledStep, String>)
    ensures
        !state.finished ==> (r matches Err(e) && e@ == "openai_stream_missing_finish"@),
        state.finished ==> match calls_outcome(state@.calls) {
            Err(e) => r matches Err(x) && x@ == e,
            Ok(os) => r matches Ok(out) && step_assembled(state, os, out),
        },
{
    let ghost s0 = state;
    if !state.finished {
        return Err(owned("openai_stream_missing_finish"));
    }
    let StreamAssembly { text, content_blocks, saw_multimodal_content, reasoning_content, tool_calls, .. } = state;
    let no_calls = tool_calls.len() == 0;
    let calls = match assemble_tool_calls(&tool_calls) {
        Ok(v) => v,
        Err(e) => return Err(e),
    };
    let ghost os = calls_outcome(s0@.calls)->Ok_0;
    assert(no_calls == (os.len() == 0));
    let text = finalized_assistant_text(text, content_blocks.as_slice(), saw_multimodal_content);
    let step = if no_calls {
        AgentStep::FinalText { text }
    } else if str_len(text.as_str()) == 0 {
        AgentStep::ToolCalls { calls }
    } else {
        AgentStep::AssistantMessageWithToolCalls { text, calls }
    };
    let content_blocks = if content_blocks.len() == 0 {
        None
    } else {
        Some(content_blocks)
    };
    let reasoning_content = if str_len(reasoning_content.as_str()) == 0 {
        None
    } else {
        Some(reasoning_content)
    };
    Ok(AssembledStep { step, content_blocks, reasoning_content })
}

/// A tool call of a complete (not streamed) response.
#[derive(Debug)]
pub struct ChatToolCall {
    pub id: String,
    pub name: String,
    pub arguments: String,
}

/// The message of one choice of a complete response.
#[derive(Debug)]
pub struct ChatChoice {
    pub content: Option<DeltaContent>,
    pub reasoning_content: Option<String>,
    pub tool_calls: Option<Vec<ChatToolCall>>,
}

/// The calls of a message, as calls being assembled at their positions.
pub open spec fn message_calls(c: ChatChoice) -> Seq<PartialCallView> {
    match c.tool_calls {
        Some(ts) => ts@.map(
            |k: int, t: ChatToolCall|
                PartialCallView { index: k as usize, id: Some(t.id@), name: Some(t.name@), arguments: t.arguments@ },
        ),
        None => Seq::empty(),
    }
}

/// Text, blocks and whether images were seen, of a message's content.
pub open spec fn message_content_parsed(c: Option<DeltaContent>) -> (Seq<char>, Seq<BlockView>, bool) {
    match c {
        Some(ct) => content_parsed(ct),
        None => (Seq::empty(), Seq::empty(), false),
    }
}

/// The step a complete response's message makes, its calls finished as
/// `os`: final text when the message has no calls; else the calls, with
/// the text when there is any. Blocks are kept when there are any, the
/// reasoning as it came.
pub open spec fn message_assembled(
    c: ChatChoice,
    os: Seq<(Seq<char>, Seq<char>, Option<serde_json::Value>)>,
    out: AssembledStep,
) -> bool {
    let (t, bs, mm) = message_content_parsed(c.content);
    let blocks = match out.content_blocks {
        Some(b) => b@,
        None => Seq::empty(),
    };
    let text = finalized_text(t, blocks, mm);
    &&& if bs.len() == 0 {
        out.content_blocks is None
    } else {
        out.content_blocks matches Some(b) && b@.map_values(|x: ContentBlock| block_view(x)) == bs
    }
    &&& opt_str_view(out.reasoning_content) == opt_str_view(c.reasoning_content)
    &&& if c.tool_calls is None {
        out.step matches AgentStep::FinalText { text: x } && x@ == text
    } else if text.len() == 0 {
        out.step matches AgentStep::ToolCalls { calls } && calls_match(calls@, os)
    } else {
        out.step matches AgentStep::AssistantMessageWithToolCalls { text: x, calls } && x@ == text && calls_match(
            calls@,
            os,
        )
    }
}

/// The step of a complete chat response: that of its first choice's
/// message. A response with no choice is an error, and so is a call whose
/// arguments are neither blank nor JSON.
pub fn parse_chat_response(choices: &[ChatChoice]) -> (r: Result<AssembledStep, String>)
    ensures
        choices@.len() == 0 ==> (r matches Err(e) && e@ == "openai_response_missing_choice"@),
        choices@.len() > 0 ==> match calls_outcome(message_calls(choices@[0])) {
            Err(e) => r matches Err(x) && x@ == e,
            Ok(os) => r matches Ok(out) && message_assembled(choices@[0], os, out),
        },
{
    if choices.len() == 0 {
        return Err(owned("openai_response_missing_choice"));
    }
    let c = &choices[0];
    let mut partials: Vec<PartialToolCall> = Vec::new();
    if let Some(ts) = &c.tool_calls {
        let ghost mc = message_calls(*c);
        let mut i: usize = 0;
        while i < ts.len()
            invariant
                i <= ts.len(),
                mc == message_calls(*c),
                c.tool_calls == Some(*ts),
                partials.len() == i,
                partials@.map_values(|p: PartialToolCall| call_view(p)) == mc.take(i as int),
            decreases ts.len() - i,
        {
            let t = &ts[i];
            let ghost before = partials@;
            partials.push(PartialToolCall {
                index: i,
                id: Some(t.id.clone()),
                name: Some(t.name.clone()),
                arguments: t.arguments.clone(),
            });
            assert(mc.len() == ts@.len());
            assert(mc[i as int] == call_view(partials@[i as int]));
            assert(partials@.map_values(|p: PartialToolCall| call_view(p)) =~= before.map_values(
                |p: PartialToolCall| call_view(p),
            ).push(mc[i as int]));
            assert(partials@.map_values(|p: PartialToolCall| call_view(p)) =~= mc.take(i as int + 1));
            i = i + 1;
        }
        assert(mc.take(ts.len() as int) =~= mc);
    } else {
        assert(partials@.map_values(|p: PartialToolCall| call_view(p)) =~= message_calls(*c));
    }
    let calls = match assemble_tool_calls(&partials) {
        Ok(v) => v,
        Err(e) => return Err(e),
    };
    let (text, blocks, saw) = match &c.content {
        Some(ct) => parse_delta_content(ct),
        None => {
            let b: Vec<ContentBlock> = Vec::new();
            assert(b@.map_values(|x: ContentBlock| block_view(x)) =~= Seq::<BlockView>::empty());
            (String::new(), b, false)
        },
    };
    let ghost bv = blocks@;
    let text = finalized_assistant_text(text, blocks.as_slice(), saw);
    let step = match &c.tool_calls {
        None => AgentStep::FinalText { text },
        Some(_) => if str_len(text.as_str()) == 0 {
            AgentStep::ToolCalls { calls }
        } else {
            AgentStep::AssistantMessageWithToolCalls { text, calls }
        },
    };
    let content_blocks = if blocks.len() == 0 {
        assert(bv =~= Seq::<ContentBlock>::empty());
        None
    } else {
        Some(blocks)
    };
    Ok(AssembledStep { step, content_blocks, reasoning_content: clone_opt(&c.reasoning_content) })
}

} // verus!
