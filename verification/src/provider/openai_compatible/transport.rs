//! Server-sent events of a streamed chat completion: frames, their `data:`
//! payloads and the `[DONE]` marker; and a transport with fixed answers.
use vstd::prelude::*;
use vstd::utf8::{decode_utf8, valid_utf8};

use crate::provider::openai_compatible::stream::{ChatChoice, ChatChunk};
use crate::text::{joined, lines, lines_of, owned, starts_with, str_eq, str_starts_with, to_chars, from_chars, slice_range, trim_start, is_ws};

verus! {

/// The first position at which `pat` occurs in `buf`.
#[verifier::opaque]
pub open spec fn first_at(buf: Seq<u8>, pat: Seq<u8>) -> Option<int> {
    if exists|i: int| 0 <= i && i + pat.len() <= buf.len() && #[trigger] buf.subrange(i, i + pat.len()) == pat {
        Some(choose|i: int|
            0 <= i && i + pat.len() <= buf.len() && #[trigger] buf.subrange(i, i + pat.len()) == pat && forall|k: int|
                0 <= k < i ==> #[trigger] buf.subrange(k, k + pat.len()) != pat)
    } else {
        None
    }
}

/// The end of the first frame: where the first blank line starts (`\n\n`
/// or `\r\n\r\n`, the earlier one), and its length.
pub open spec fn frame_delimiter(buf: Seq<u8>) -> Option<(int, int)> {
    let lf = first_at(buf, seq![10u8, 10u8]);
    let crlf = first_at(buf, seq![13u8, 10u8, 13u8, 10u8]);
    match (lf, crlf) {
        (Some(a), Some(b)) => if a <= b { Some((a, 2)) } else { Some((b, 4)) },
        (Some(a), None) => Some((a, 2)),
        (None, Some(b)) => Some((b, 4)),
        (None, None) => None,
    }
}

fn find_pattern(buf: &[u8], pat: &[u8]) -> (r: Option<usize>)
    requires
        pat.len() > 0,
    ensures
        match r {
            Some(i) => first_at(buf@, pat@) == Some(i as int),
            None => first_at(buf@, pat@) is None,
        },
{
    reveal(first_at);
    let n = buf.len();
    let m = pat.len();
    if m > n {
        return None;
    }
    let mut i: usize = 0;
    while i <= n - m
        invariant
            m == pat.len(),
            n == buf.len(),
            m <= n,
            m > 0,
            i <= n - m + 1,
            forall|k: int| 0 <= k < i ==> #[trigger] buf@.subrange(k, k + pat@.len()) != pat@,
        decreases n - m + 1 - i,
    {
        let mut j: usize = 0;
        let mut same = true;
        while j < m && same
            invariant
                j <= m,
                i + m <= n,
                m == pat.len(),
                n == buf.len(),
                same ==> forall|t: int| 0 <= t < j ==> buf@[i + t] == pat@[t],
                !same ==> buf@.subrange(i as int, i + m) != pat@,
            decreases m - j,
        {
            if buf[i + j] != pat[j] {
                same = false;
                assert(buf@.subrange(i as int, i + m)[j as int] != pat@[j as int]);
            }
            j = j + 1;
        }
        if same {
            assert(buf@.subrange(i as int, i + pat@.len()) =~= pat@);
            assert(0 <= i && i + pat@.len() <= buf@.len() && buf@.subrange(i as int, i + pat@.len()) == pat@ && forall|k: int|
                0 <= k < i ==> #[trigger] buf@.subrange(k, k + pat@.len()) != pat@);
            proof {
                lemma_first_at_is(buf@, pat@, i as int);
            }
            return Some(i);
        }
        i = i + 1;
    }
    None
}

/// Finds the blank line that ends the first frame of the buffer.
pub fn find_sse_frame_delimiter(buf: &[u8]) -> (r: Option<(usize, usize)>)
    ensures
        match r {
            Some((i, l)) => frame_delimiter(buf@) == Some((i as int, l as int)),
            None => frame_delimiter(buf@) is None,
        },
{
    let lf_pat: [u8; 2] = [10u8, 10u8];
    let crlf_pat: [u8; 4] = [13u8, 10u8, 13u8, 10u8];
    assert(lf_pat@ =~= seq![10u8, 10u8]);
    assert(crlf_pat@ =~= seq![13u8, 10u8, 13u8, 10u8]);
    let lf = find_pattern(buf, &lf_pat);
    let crlf = find_pattern(buf, &crlf_pat);
    match (lf, crlf) {
        (Some(a), Some(b)) => if a <= b { Some((a, 2)) } else { Some((b, 4)) },
        (Some(a), None) => Some((a, 2)),
        (None, Some(b)) => Some((b, 4)),
        (None, None) => None,
    }
}

/// The `data:` lines of a frame, each without the prefix and the white
/// space after it.
pub open spec fn data_lines(ls: Seq<Seq<char>>) -> Seq<Seq<char>>
    decreases ls.len(),
{
    if ls.len() == 0 {
        Seq::empty()
    } else {
        let rest = data_lines(ls.drop_last());
        let l = ls.last();
        if starts_with(l, "data:"@) {
            rest.push(trim_start(l.skip(5)))
        } else {
            rest
        }
    }
}

/// The payload of a frame: its `data:` lines joined by newlines, if it has
/// any.
pub open spec fn sse_data_of(frame: Seq<char>) -> Option<Seq<char>> {
    let d = data_lines(lines_of(frame));
    if d.len() == 0 {
        None
    } else {
        Some(joined(d, "\n"@))
    }
}

fn trim_start_string(s: &[char], from: usize) -> (r: String)
    requires
        from <= s@.len(),
    ensures
        r@ == trim_start(s@.skip(from as int)),
{
    let mut i: usize = from;
    while i < s.len() && crate::text::char_is_ws(s[i])
        invariant
            from <= i <= s@.len(),
            trim_start(s@.skip(from as int)) == trim_start(s@.skip(i as int)),
        decreases s.len() - i,
    {
        assert(s@.skip(i as int).drop_first() =~= s@.skip(i as int + 1));
        i = i + 1;
    }
    proof {
        if i < s@.len() {
            assert(s@.skip(i as int)[0] == s@[i as int]);
        }
    }
    let v = slice_range(s, i, s.len());
    assert(v@ =~= s@.skip(i as int));
    from_chars(&v)
}

/// The payload of a frame, if it has `data:` lines.
pub fn extract_sse_data(frame: &str) -> (r: Option<String>)
    ensures
        match r {
            Some(d) => sse_data_of(frame@) == Some(d@),
            None => sse_data_of(frame@) is None,
        },
{
    let ls = lines(frame);
    let ghost lv = ls@.map_values(|t: String| t@);
    let mut out: Vec<String> = Vec::new();
    let mut i: usize = 0;
    while i < ls.len()
        invariant
            i <= ls.len(),
            lv == ls@.map_values(|t: String| t@),
            out@.map_values(|t: String| t@) == data_lines(lv.take(i as int)),
        decreases ls.len() - i,
    {
        assert(lv.take(i as int + 1).drop_last() =~= lv.take(i as int));
        if str_starts_with(ls[i].as_str(), "data:") {
            let cs = to_chars(ls[i].as_str());
            proof {
                reveal_strlit("data:");
            }
            let rest = trim_start_string(&cs, 5);
            let ghost prev = out@.map_values(|t: String| t@);
            out.push(rest);
            assert(out@.map_values(|t: String| t@) =~= prev.push(trim_start(lv[i as int].skip(5))));
        }
        i = i + 1;
    }
    assert(lv.take(ls.len() as int) =~= lv);
    if out.len() == 0 {
        None
    } else {
        Some(crate::text::join(out.as_slice(), "\n"))
    }
}

/// `String::from_utf8`: the text, when the bytes are valid UTF-8.
#[verifier::external_body]
pub fn utf8_text(bytes: Vec<u8>) -> (r: Option<String>)
    ensures
        r is Some <==> valid_utf8(bytes@),
        r matches Some(s) ==> s@ == decode_utf8(bytes@),
{
    String::from_utf8(bytes).ok()
}

/// Every `\r\n` made `\n`, scanning from the left (`str::replace`).
pub open spec fn crlf_to_lf(s: Seq<char>) -> Seq<char>
    decreases s.len(),
{
    if s.len() < 2 {
        s
    } else if s[0] == '\r' && s[1] == '\n' {
        seq!['\n'] + crlf_to_lf(s.skip(2))
    } else {
        seq![s[0]] + crlf_to_lf(s.skip(1))
    }
}

/// Replaces `\r\n` line endings by `\n`.
pub fn replace_crlf(s: &str) -> (r: String)
    ensures
        r@ == crlf_to_lf(s@),
{
    let cs = to_chars(s);
    let mut out: Vec<char> = Vec::new();
    let mut i: usize = 0;
    assert(s@.skip(0) =~= s@);
    while i < cs.len()
        invariant
            i <= cs.len(),
            cs@ == s@,
            out@ + crlf_to_lf(s@.skip(i as int)) == crlf_to_lf(s@),
        decreases cs.len() - i,
    {
        let ghost rest = s@.skip(i as int);
        if i + 1 < cs.len() && cs[i] == '\r' && cs[i + 1] == '\n' {
            assert(rest.skip(2) =~= s@.skip(i as int + 2));
            out.push('\n');
            assert(out@ + crlf_to_lf(s@.skip(i as int + 2)) =~= crlf_to_lf(s@));
            i = i + 2;
        } else {
            assert(rest.skip(1) =~= s@.skip(i as int + 1));
            out.push(cs[i]);
            proof {
                if rest.len() < 2 {
                    assert(rest =~= seq![cs@[i as int]]);
                    assert(s@.skip(i as int + 1) =~= Seq::<char>::empty());
                }
            }
            assert(out@ + crlf_to_lf(s@.skip(i as int + 1)) =~= crlf_to_lf(s@));
            i = i + 1;
        }
    }
    assert(s@.skip(cs.len() as int) =~= Seq::<char>::empty());
    assert(out@ =~= crlf_to_lf(s@));
    from_chars(&out)
}

/// The complete frames at the front of a buffer, and what is left after
/// them.
pub open spec fn drain_frames(buf: Seq<u8>) -> (Seq<Seq<u8>>, Seq<u8>)
    decreases buf.len(),
{
    match frame_delimiter(buf) {
        Some((i, l)) => if 0 <= i && 0 < l && i + l <= buf.len() {
            let (fs, rest) = drain_frames(buf.skip(i + l));
            (seq![buf.take(i)] + fs, rest)
        } else {
            (Seq::empty(), buf)
        },
        None => (Seq::empty(), buf),
    }
}

/// What a decoder gives back.
#[derive(Debug, Clone, PartialEq, Eq)]
pub enum SseItem {
    /// The payload of a frame.
    Data(String),
    /// The stream said `[DONE]`; nothing after it counts.
    Done,
    /// A frame was not valid UTF-8; the stream ends there.
    InvalidUtf8,
}

/// An item as values.
pub enum SseItemView {
    Data(Seq<char>),
    Done,
    InvalidUtf8,
}

pub open spec fn item_view(i: SseItem) -> SseItemView {
    match i {
        SseItem::Data(s) => SseItemView::Data(s@),
        SseItem::Done => SseItemView::Done,
        SseItem::InvalidUtf8 => SseItemView::InvalidUtf8,
    }
}

/// The items of complete frames, in order, up to the first `[DONE]` or
/// invalid frame, which ends them.
pub open spec fn frame_items(frames: Seq<Seq<u8>>) -> Seq<SseItemView>
    decreases frames.len(),
{
    if frames.len() == 0 {
        Seq::empty()
    } else {
        let f = frames[0];
        if !valid_utf8(f) {
            seq![SseItemView::InvalidUtf8]
        } else {
            match sse_data_of(crlf_to_lf(decode_utf8(f))) {
                None => frame_items(frames.skip(1)),
                Some(d) => if d == "[DONE]"@ {
                    seq![SseItemView::Done]
                } else {
                    seq![SseItemView::Data(d)] + frame_items(frames.skip(1))
                },
            }
        }
    }
}

/// The items end the stream.
pub open spec fn ends_stream(items: Seq<SseItemView>) -> bool {
    items.len() > 0 && (items.last() is Done || items.last() is InvalidUtf8)
}

/// Splits a byte stream of server-sent events into payloads.
pub struct SseDecoder {
    buffer: Vec<u8>,
    finished: bool,
}

fn frame_item(frame: Vec<u8>) -> (r: Option<SseItem>)
    ensures
        !valid_utf8(frame@) ==> r == Some(SseItem::InvalidUtf8),
        valid_utf8(frame@) ==> match sse_data_of(crlf_to_lf(decode_utf8(frame@))) {
            None => r is None,
            Some(d) => if d == "[DONE]"@ {
                r == Some(SseItem::Done)
            } else {
                r matches Some(SseItem::Data(x)) && x@ == d
            },
        },
{
    let text = match utf8_text(frame) {
        Some(t) => t,
        None => return Some(SseItem::InvalidUtf8),
    };
    let text = replace_crlf(text.as_str());
    match extract_sse_data(text.as_str()) {
        None => None,
        Some(d) => if str_eq(d.as_str(), "[DONE]") {
            Some(SseItem::Done)
        } else {
            Some(SseItem::Data(d))
        },
    }
}

fn copy_bytes(v: &Vec<u8>, a: usize, b: usize) -> (r: Vec<u8>)
    requires
        a <= b <= v@.len(),
    ensures
        r@ == v@.subrange(a as int, b as int),
{
    let mut out: Vec<u8> = Vec::new();
    let mut i: usize = a;
    while i < b
        invariant
            a <= i <= b <= v@.len(),
            out@ == v@.subrange(a as int, i as int),
        decreases b - i,
    {
        out.push(v[i]);
        assert(v@.subrange(a as int, i as int + 1) =~= v@.subrange(a as int, i as int).push(v@[i as int]));
        i = i + 1;
    }
    out
}

impl SseDecoder {
    /// The bytes not yet part of a complete frame.
    pub closed spec fn pending(&self) -> Seq<u8> {
        self.buffer@
    }

    /// The stream has ended.
    pub closed spec fn is_finished(&self) -> bool {
        self.finished
    }

    pub fn new() -> (r: Self)
        ensures
            r.pending() == Seq::<u8>::empty(),
            !r.is_finished(),
    {
        SseDecoder { buffer: Vec::new(), finished: false }
    }

    /// Whether the stream has ended.
    pub fn finished(&self) -> (r: bool)
        ensures
            r == self.is_finished(),
    {
        self.finished
    }

    /// Takes a chunk of bytes and gives the items of the frames it
    /// completes. Once the stream has ended, chunks are ignored.
    pub fn push(&mut self, chunk: &[u8]) -> (r: Vec<SseItem>)
        ensures
            old(self).is_finished() ==> r@.len() == 0 && final(self).is_finished() && final(self).pending() == old(self).pending(),
            !old(self).is_finished() ==> {
                let (frames, rest) = drain_frames(old(self).pending() + chunk@);
                let items = frame_items(frames);
                &&& r@.map_values(|i: SseItem| item_view(i)) == items
                &&& final(self).is_finished() == ends_stream(items)
                &&& !ends_stream(items) ==> final(self).pending() == rest
            },
    {
        if self.finished {
            return Vec::new();
        }
        let mut buf: Vec<u8> = Vec::new();
        std::mem::swap(&mut buf, &mut self.buffer);
        let mut k: usize = 0;
        while k < chunk.len()
            invariant
                k <= chunk.len(),
                buf@ == old(self).pending() + chunk@.take(k as int),
            decreases chunk.len() - k,
        {
            buf.push(chunk[k]);
            assert(chunk@.take(k as int + 1) =~= chunk@.take(k as int).push(chunk@[k as int]));
            k = k + 1;
        }
        assert(chunk@.take(chunk.len() as int) =~= chunk@);
        let ghost total = buf@;
        let mut out: Vec<SseItem> = Vec::new();
        let ghost mut seen: Seq<Seq<u8>> = Seq::empty();
        loop
            invariant_except_break
                !self.finished,
                drain_frames(total).0 == seen + drain_frames(buf@).0,
                drain_frames(total).1 == drain_frames(buf@).1,
                frame_items(drain_frames(total).0) == out@.map_values(|i: SseItem| item_view(i)) + frame_items(drain_frames(buf@).0),
                !ends_stream(out@.map_values(|i: SseItem| item_view(i))),
            ensures
                ({
                    let items = frame_items(drain_frames(total).0);
                    &&& out@.map_values(|i: SseItem| item_view(i)) == items
                    &&& self.finished == ends_stream(items)
                    &&& !self.finished ==> buf@ == drain_frames(total).1
                }),
            decreases buf@.len(),
        {
            let ghost prev = out@.map_values(|i: SseItem| item_view(i));
            match find_sse_frame_delimiter(buf.as_slice()) {
                None => {
                    proof {
                        lemma_drain_none(buf@);
                    }
                    assert(prev + frame_items(Seq::<Seq<u8>>::empty()) =~= prev);
                    break;
                },
                Some((idx, len)) => {
                    proof {
                        lemma_drain_step(buf@, idx as int, len as int);
                    }
                    assert(idx + len <= buf.len());
                    let frame = copy_bytes(&buf, 0, idx);
                    let rest = copy_bytes(&buf, idx + len, buf.len());
                    let ghost fs = drain_frames(buf@).0;
                    assert(frame@ =~= buf@.take(idx as int));
                    assert(rest@ =~= buf@.skip(idx + len));
                    assert(fs == seq![frame@] + drain_frames(rest@).0);
                    assert(fs[0] == frame@);
                    assert(fs.skip(1) =~= drain_frames(rest@).0);

                    buf = rest;
                    let item = frame_item(frame);
                    match item {
                        None => {
                            assert(seen.push(fs[0]) + drain_frames(buf@).0 =~= seen + fs);
                            proof {
                                seen = seen.push(fs[0]);
                            }
                        },
                        Some(it) => {
                            let terminal = match &it {
                                SseItem::Data(_) => false,
                                _ => true,
                            };
                            let ghost iv = item_view(it);
                            out.push(it);
                            assert(out@.map_values(|i: SseItem| item_view(i)) =~= prev.push(iv));
                            if terminal {
                                self.finished = true;
                                assert(frame_items(fs) =~= seq![iv]);
                                assert(frame_items(drain_frames(total).0) =~= prev.push(iv));
                                break;
                            }
                            assert(seen.push(fs[0]) + drain_frames(buf@).0 =~= seen + fs);
                            assert(frame_items(fs) =~= seq![iv] + frame_items(drain_frames(buf@).0));
                            assert(prev + frame_items(fs) =~= prev.push(iv) + frame_items(drain_frames(buf@).0));
                            proof {
                                seen = seen.push(fs[0]);
                            }
                        },
                    }
                },
            }
        }
        if !self.finished {
            self.buffer = buf;
        }
        out
    }

    /// Ends the stream: the bytes left over make a last frame.
    pub fn finish(self) -> (r: Option<SseItem>)
        ensures
            self.is_finished() || self.pending().len() == 0 ==> r is None,
            !self.is_finished() && self.pending().len() > 0 ==> {
                ||| !valid_utf8(self.pending()) && r == Some(SseItem::InvalidUtf8)
                ||| valid_utf8(self.pending()) && match sse_data_of(crlf_to_lf(decode_utf8(self.pending()))) {
                    None => r is None,
                    Some(d) => if d == "[DONE]"@ {
                        r is None
                    } else {
                        r matches Some(SseItem::Data(x)) && x@ == d
                    },
                }
            },
    {
        if self.finished || self.buffer.len() == 0 {
            return None;
        }
        match frame_item(self.buffer) {
            Some(SseItem::Done) => None,
            other => other,
        }
    }
}

proof fn lemma_first_at_is(buf: Seq<u8>, pat: Seq<u8>, i: int)
    requires
        0 <= i && i + pat.len() <= buf.len(),
        buf.subrange(i, i + pat.len()) == pat,
        forall|k: int| 0 <= k < i ==> #[trigger] buf.subrange(k, k + pat.len()) != pat,
    ensures
        first_at(buf, pat) == Some(i),
{
    reveal(first_at);
    assert(exists|j: int| 0 <= j && j + pat.len() <= buf.len() && #[trigger] buf.subrange(j, j + pat.len()) == pat);
    let c = choose|j: int|
        0 <= j && j + pat.len() <= buf.len() && #[trigger] buf.subrange(j, j + pat.len()) == pat && forall|k: int|
            0 <= k < j ==> #[trigger] buf.subrange(k, k + pat.len()) != pat;
    assert(0 <= c && c + pat.len() <= buf.len() && buf.subrange(c, c + pat.len()) == pat);
    if c < i {
        assert(buf.subrange(c, c + pat.len()) != pat);
    }
    if c > i {
        assert(buf.subrange(i, i + pat.len()) != pat);
    }
}

proof fn lemma_first_at_range(buf: Seq<u8>, pat: Seq<u8>)
    ensures
        first_at(buf, pat) matches Some(i) ==> 0 <= i && i + pat.len() <= buf.len(),
{
    reveal(first_at);
    if exists|i: int| 0 <= i && i + pat.len() <= buf.len() && #[trigger] buf.subrange(i, i + pat.len()) == pat {
        let c = choose|i: int|
            0 <= i && i + pat.len() <= buf.len() && #[trigger] buf.subrange(i, i + pat.len()) == pat && forall|k: int|
                0 <= k < i ==> #[trigger] buf.subrange(k, k + pat.len()) != pat;
        let w = choose|i: int| 0 <= i && i + pat.len() <= buf.len() && #[trigger] buf.subrange(i, i + pat.len()) == pat;
        lemma_first_witness(buf, pat, w);
    }
}

/// Some first occurrence exists once an occurrence does.
proof fn lemma_first_witness(buf: Seq<u8>, pat: Seq<u8>, w: int)
    requires
        0 <= w && w + pat.len() <= buf.len() && buf.subrange(w, w + pat.len()) == pat,
    ensures
        exists|i: int|
            0 <= i && i + pat.len() <= buf.len() && #[trigger] buf.subrange(i, i + pat.len()) == pat && forall|k: int|
                0 <= k < i ==> #[trigger] buf.subrange(k, k + pat.len()) != pat,
    decreases w,
{
    if exists|k: int| 0 <= k < w && #[trigger] buf.subrange(k, k + pat.len()) == pat {
        let k = choose|k: int| 0 <= k < w && #[trigger] buf.subrange(k, k + pat.len()) == pat;
        lemma_first_witness(buf, pat, k);
    } else {
        assert(forall|k: int| 0 <= k < w ==> #[trigger] buf.subrange(k, k + pat.len()) != pat);
    }
}

proof fn lemma_delimiter_in_range(buf: Seq<u8>)
    ensures
        frame_delimiter(buf) matches Some((i, l)) ==> 0 <= i && 0 < l && i + l <= buf.len(),
{
    lemma_first_at_range(buf, seq![10u8, 10u8]);
    lemma_first_at_range(buf, seq![13u8, 10u8, 13u8, 10u8]);
}

proof fn lemma_drain_step(buf: Seq<u8>, i: int, l: int)
    requires
        frame_delimiter(buf) == Some((i, l)),
    ensures
        0 <= i && 0 < l && i + l <= buf.len(),
        drain_frames(buf).0 == seq![buf.take(i)] + drain_frames(buf.skip(i + l)).0,
        drain_frames(buf).1 == drain_frames(buf.skip(i + l)).1,
{
    lemma_delimiter_in_range(buf);
}

proof fn lemma_drain_none(buf: Seq<u8>)
    requires
        frame_delimiter(buf) is None,
    ensures
        drain_frames(buf).0 == Seq::<Seq<u8>>::empty(),
        drain_frames(buf).1 == buf,
{
}



/// A transport that answers a completion request with a fixed response
/// and a streaming request with fixed chunks.
#[derive(Debug)]
pub struct MockOpenAiTransport {
    response: Option<Vec<ChatChoice>>,
    chunks: Vec<ChatChunk>,
}

impl MockOpenAiTransport {
    /// The response's choices, when it was given one.
    pub closed spec fn response(&self) -> Option<Seq<ChatChoice>> {
        match self.response {
            Some(r) => Some(r@),
            None => None,
        }
    }

    pub closed spec fn chunks(&self) -> Seq<ChatChunk> {
        self.chunks@
    }

    /// A transport that answers completions with `response` and streams
    /// nothing.
    pub fn for_response(response: Vec<ChatChoice>) -> (r: Self)
        ensures
            r.response() == Some(response@),
            r.chunks().len() == 0,
    {
        MockOpenAiTransport { response: Some(response), chunks: Vec::new() }
    }

    /// A transport that streams `chunks` and has no completion response.
    pub fn for_chunks(chunks: Vec<ChatChunk>) -> (r: Self)
        ensures
            r.response() is None,
            r.chunks() == chunks@,
    {
        MockOpenAiTransport { response: None, chunks }
    }

    /// The completion response, or `mock_openai_missing_response` when
    /// the transport was made for chunks.
    pub fn into_chat_completion(self) -> (r: Result<Vec<ChatChoice>, String>)
        ensures
            match (self.response(), r) {
                (Some(c), Ok(v)) => v@ == c,
                (None, Err(e)) => e@ == "mock_openai_missing_response"@,
                _ => false,
            },
    {
        match self.response {
            Some(v) => Ok(v),
            None => Err(owned("mock_openai_missing_response")),
        }
    }

    /// The chunks it streams, in order.
    pub fn into_chunk_stream(self) -> (r: Vec<ChatChunk>)
        ensures
            r@ == self.chunks(),
    {
        self.chunks
    }
}

} // verus!
