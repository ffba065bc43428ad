//! Conversation messages, tool calls and multimodal content blocks.
use vstd::prelude::*;

use crate::text::{decimal, owned, push_str, str_eq, u64_to_decimal};

verus! {

/// `serde_json::Value`, carried through messages and tool calls unopened.
#[verifier::external_type_specification]
#[verifier::external_body]
pub struct ExJsonValue(serde_json::Value);

/// A tool call requested by the model.
#[derive(Debug)]
pub struct ToolCall {
    pub id: String,
    pub name: String,
    pub arguments: serde_json::Value,
}

/// One multimodal content block.
#[derive(Debug, PartialEq, Eq)]
pub struct ContentBlock {
    /// `"image_base64"`, `"image_url"` or another kind.
    pub block_type: String,
    pub mime_type: Option<String>,
    pub base64: Option<String>,
    pub url: Option<String>,
}

/// A borrowed view of an inline base64 image block.
#[derive(Debug, Clone, Copy, PartialEq, Eq)]
pub struct ImageBase64BlockRef<'a> {
    pub mime_type: &'a str,
    pub base64: &'a str,
}

/// A borrowed view of an image URL block.
#[derive(Debug, Clone, Copy, PartialEq, Eq)]
pub struct ImageUrlBlockRef<'a> {
    pub url: &'a str,
    pub mime_type: Option<&'a str>,
}

pub open spec fn opt_str_view(o: Option<String>) -> Option<Seq<char>> {
    match o {
        Some(s) => Some(s@),
        None => None,
    }
}

pub fn clone_opt(o: &Option<String>) -> (r: Option<String>)
    ensures
        r == *o,
{
    match o {
        Some(s) => Some(s.clone()),
        None => None,
    }
}

impl Clone for ContentBlock {
    fn clone(&self) -> (r: Self)
        ensures
            r == *self,
    {
        ContentBlock {
            block_type: self.block_type.clone(),
            mime_type: clone_opt(&self.mime_type),
            base64: clone_opt(&self.base64),
            url: clone_opt(&self.url),
        }
    }
}

/// The text shown in place of a block that cannot be rendered.
pub open spec fn block_fallback(b: ContentBlock) -> Seq<char> {
    if b.block_type@ == "image_base64"@ && b.mime_type is Some && b.base64 is Some {
        "(image content: "@ + b.mime_type.unwrap()@ + ")"@
    } else if b.block_type@ == "image_url"@ && b.url is Some {
        match b.mime_type {
            Some(m) => "(image content: "@ + m@ + ")"@,
            None => "(image content)"@,
        }
    } else {
        "("@ + b.block_type@ + " content)"@
    }
}

impl ContentBlock {
    /// An inline base64 image.
    pub fn image_base64(mime_type: &str, base64: &str) -> (r: Self)
        ensures
            r.block_type@ == "image_base64"@,
            opt_str_view(r.mime_type) == Some(mime_type@),
            opt_str_view(r.base64) == Some(base64@),
            r.url is None,
    {
        ContentBlock {
            block_type: owned("image_base64"),
            mime_type: Some(owned(mime_type)),
            base64: Some(owned(base64)),
            url: None,
        }
    }

    /// The block as an inline image, when it is one with both fields set.
    pub fn as_image_base64(&self) -> (r: Option<ImageBase64BlockRef<'_>>)
        ensures
            r is Some <==> (self.block_type@ == "image_base64"@ && self.mime_type is Some && self.base64 is Some),
            r matches Some(i) ==> i.mime_type@ == self.mime_type.unwrap()@ && i.base64@ == self.base64.unwrap()@,
    {
        if !str_eq(self.block_type.as_str(), "image_base64") {
            return None;
        }
        match (&self.mime_type, &self.base64) {
            (Some(m), Some(b)) => Some(ImageBase64BlockRef { mime_type: m.as_str(), base64: b.as_str() }),
            _ => None,
        }
    }

    /// An image referenced by URL.
    pub fn image_url(url: &str) -> (r: Self)
        ensures
            r.block_type@ == "image_url"@,
            r.mime_type is None,
            r.base64 is None,
            opt_str_view(r.url) == Some(url@),
    {
        ContentBlock { block_type: owned("image_url"), mime_type: None, base64: None, url: Some(owned(url)) }
    }

    /// An image referenced by URL, with its MIME type.
    pub fn image_url_with_mime(mime_type: &str, url: &str) -> (r: Self)
        ensures
            r.block_type@ == "image_url"@,
            opt_str_view(r.mime_type) == Some(mime_type@),
            r.base64 is None,
            opt_str_view(r.url) == Some(url@),
    {
        ContentBlock {
            block_type: owned("image_url"),
            mime_type: Some(owned(mime_type)),
            base64: None,
            url: Some(owned(url)),
        }
    }

    /// The block as an image URL, when it is one with a URL.
    pub fn as_image_url(&self) -> (r: Option<ImageUrlBlockRef<'_>>)
        ensures
            r is Some <==> (self.block_type@ == "image_url"@ && self.url is Some),
            r matches Some(i) ==> i.url@ == self.url.unwrap()@ && (match (i.mime_type, self.mime_type) {
                (Some(a), Some(b)) => a@ == b@,
                (None, None) => true,
                _ => false,
            }),
    {
        if !str_eq(self.block_type.as_str(), "image_url") {
            return None;
        }
        match &self.url {
            Some(u) => Some(
                ImageUrlBlockRef {
                    url: u.as_str(),
                    mime_type: match &self.mime_type {
                        Some(m) => Some(m.as_str()),
                        None => None,
                    },
                },
            ),
            None => None,
        }
    }

    /// The placeholder text of the block.
    pub fn fallback_text(&self) -> (r: String)
        ensures
            r@ == block_fallback(*self),
    {
        if let Some(image) = self.as_image_base64() {
            let mut s = owned("(image content: ");
            push_str(&mut s, image.mime_type);
            push_str(&mut s, ")");
            return s;
        }
        if let Some(image) = self.as_image_url() {
            if let Some(mime_type) = image.mime_type {
                let mut s = owned("(image content: ");
                push_str(&mut s, mime_type);
                push_str(&mut s, ")");
                return s;
            }
            return owned("(image content)");
        }
        let mut s = owned("(");
        push_str(&mut s, self.block_type.as_str());
        push_str(&mut s, " content)");
        s
    }
}

/// The placeholder text of a list of blocks: none for no block, the
/// block's own for one, and a count otherwise.
pub open spec fn blocks_fallback(blocks: Seq<ContentBlock>) -> Option<Seq<char>> {
    if blocks.len() == 0 {
        None
    } else if blocks.len() == 1 {
        Some(block_fallback(blocks[0]))
    } else {
        Some("("@ + decimal(blocks.len()) + " content blocks)"@)
    }
}

/// The placeholder text for a list of content blocks.
pub fn fallback_text_for_content_blocks(blocks: &[ContentBlock]) -> (r: Option<String>)
    ensures
        opt_str_view(r) == blocks_fallback(blocks@),
{
    if blocks.len() == 0 {
        return None;
    }
    if blocks.len() == 1 {
        return Some(blocks[0].fallback_text());
    }
    let mut s = owned("(");
    let n = u64_to_decimal(blocks.len() as u64);
    push_str(&mut s, n.as_str());
    push_str(&mut s, " content blocks)");
    Some(s)
}

impl Clone for ToolCall {
    fn clone(&self) -> (r: Self)
        ensures
            r == *self,
    {
        ToolCall { id: self.id.clone(), name: self.name.clone(), arguments: self.arguments.clone() }
    }
}

pub fn clone_blocks(v: &Vec<ContentBlock>) -> (r: Vec<ContentBlock>)
    ensures
        r@ == v@,
{
    let mut out: Vec<ContentBlock> = Vec::new();
    for i in 0..v.len()
        invariant
            out@ == v@.take(i as int),
    {
        out.push(v[i].clone());
        assert(v@.take(i as int).push(v@[i as int]) =~= v@.take(i as int + 1));
    }
    assert(v@.take(v@.len() as int) =~= v@);
    out
}

pub fn clone_tool_calls(v: &Vec<ToolCall>) -> (r: Vec<ToolCall>)
    ensures
        r@ == v@,
{
    let mut out: Vec<ToolCall> = Vec::new();
    for i in 0..v.len()
        invariant
            out@ == v@.take(i as int),
    {
        out.push(v[i].clone());
        assert(v@.take(i as int).push(v@[i as int]) =~= v@.take(i as int + 1));
    }
    assert(v@.take(v@.len() as int) =~= v@);
    out
}

/// One conversation message.
#[derive(Debug)]
pub struct Message {
    pub role: String,
    pub content: String,
    pub content_blocks: Option<Vec<ContentBlock>>,
    pub reasoning_content: Option<String>,
    pub tool_calls: Option<Vec<ToolCall>>,
    pub tool_call_id: Option<String>,
    pub name: Option<String>,
    pub status: Option<String>,
}

/// A message as values: its lists are sequences.
pub struct MessageView {
    pub role: Seq<char>,
    pub content: Seq<char>,
    pub content_blocks: Option<Seq<ContentBlock>>,
    pub reasoning_content: Option<Seq<char>>,
    pub tool_calls: Option<Seq<ToolCall>>,
    pub tool_call_id: Option<Seq<char>>,
    pub name: Option<Seq<char>>,
    pub status: Option<Seq<char>>,
}

impl View for Message {
    type V = MessageView;

    open spec fn view(&self) -> MessageView {
        MessageView {
            role: self.role@,
            content: self.content@,
            content_blocks: match self.content_blocks {
                Some(b) => Some(b@),
                None => None,
            },
            reasoning_content: opt_str_view(self.reasoning_content),
            tool_calls: match self.tool_calls {
                Some(t) => Some(t@),
                None => None,
            },
            tool_call_id: opt_str_view(self.tool_call_id),
            name: opt_str_view(self.name),
            status: opt_str_view(self.status),
        }
    }
}

pub open spec fn messages_view(v: Seq<Message>) -> Seq<MessageView> {
    v.map_values(|m: Message| m@)
}

impl Clone for Message {
    fn clone(&self) -> (r: Self)
        ensures
            r@ == self@,
    {
        Message {
            role: self.role.clone(),
            content: self.content.clone(),
            content_blocks: match &self.content_blocks {
                Some(b) => Some(clone_blocks(b)),
                None => None,
            },
            reasoning_content: clone_opt(&self.reasoning_content),
            tool_calls: match &self.tool_calls {
                Some(t) => Some(clone_tool_calls(t)),
                None => None,
            },
            tool_call_id: clone_opt(&self.tool_call_id),
            name: clone_opt(&self.name),
            status: clone_opt(&self.status),
        }
    }
}

impl Message {
    /// A message with a role and a text and nothing else.
    pub fn text(role: &str, content: &str) -> (r: Self)
        ensures
            r.role@ == role@,
            r.content@ == content@,
            r.content_blocks is None,
            r.reasoning_content is None,
            r.tool_calls is None,
            r.tool_call_id is None,
            r.name is None,
            r.status is None,
    {
        Message {
            role: owned(role),
            content: owned(content),
            content_blocks: None,
            reasoning_content: None,
            tool_calls: None,
            tool_call_id: None,
            name: None,
            status: None,
        }
    }
}

pub fn clone_messages(v: &[Message]) -> (r: Vec<Message>)
    ensures
        messages_view(r@) == messages_view(v@),
{
    let mut out: Vec<Message> = Vec::new();
    for i in 0..v.len()
        invariant
            out.len() == i,
            forall|k: int| 0 <= k < i ==> #[trigger] out@[k]@ == v@[k]@,
    {
        out.push(v[i].clone());
    }
    assert(messages_view(out@) =~= messages_view(v@));
    out
}

/// A request made of messages.
#[derive(Debug)]
pub struct AgentRequest {
    pub messages: Vec<Message>,
}

/// The final text of a run.
#[derive(Debug, Clone)]
pub struct AgentResponse {
    pub output_text: String,
}

/// A file or directory entry of a backend.
#[derive(Debug, Clone)]
pub struct FileInfo {
    pub path: String,
    pub is_dir: Option<bool>,
    pub size: Option<u64>,
    pub modified_at: Option<String>,
}

/// One line matched by grep.
#[derive(Debug, Clone)]
pub struct GrepMatch {
    pub path: String,
    pub line: u64,
    pub text: String,
}

/// Result of a file write.
#[derive(Debug, Clone)]
pub struct WriteResult {
    pub error: Option<String>,
    pub path: Option<String>,
}

/// Result of a file edit.
#[derive(Debug, Clone)]
pub struct EditResult {
    pub error: Option<String>,
    pub path: Option<String>,
    pub occurrences: Option<u64>,
}

/// Result of a command execution.
#[derive(Debug, Clone)]
pub struct ExecResult {
    pub exit_code: i32,
    pub output: String,
    pub truncated: Option<bool>,
}

/// Result of a file deletion.
#[derive(Debug, Clone)]
pub struct DeleteResult {
    pub error: Option<String>,
    pub path: Option<String>,
}

} // verus!
