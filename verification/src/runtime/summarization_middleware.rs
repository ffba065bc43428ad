//! Conversation summarization: when history is cut, where, and the summary
//! that stands in for what was cut.
use vstd::prelude::*;

use crate::runtime::events::{preview_of, preview_text};
use crate::runtime::filesystem_runtime_middleware::trim_slashes;
use crate::text::{char_count, contains, join, joined, owned, push_str, split_whitespace, str_contains, str_eq, take_chars, to_chars, u64_to_decimal, decimal, ws_split, from_chars, slice_range};
use crate::types::{Message, messages_view, opt_str_view};

verus! {

/// How the cut point is chosen.
#[derive(Debug, Clone, Copy, PartialEq, Eq, Structural)]
pub enum SummarizationPolicyKind {
    Budget,
    Turns,
    Importance,
}

/// Keeps summaries as markdown files under a root directory.
#[derive(Debug, Clone)]
pub struct FilesystemSummarizationStore {
    pub root: String,
    pub prefix: String,
}

impl FilesystemSummarizationStore {
    pub fn new(root: &str, prefix: &str) -> (r: Self)
        ensures
            r.root@ == root@,
            r.prefix@ == prefix@,
    {
        FilesystemSummarizationStore { root: owned(root), prefix: owned(prefix) }
    }

    /// The path a thread's history is written to, as the agent sees it.
    pub fn virtual_path(&self, thread_id: &str) -> (r: String)
        ensures
            r@ == trim_slashes(self.prefix@) + "/"@ + thread_id@ + ".md"@,
    {
        let cs = to_chars(self.prefix.as_str());
        let mut n: usize = cs.len();
        assert(self.prefix@.take(n as int) =~= self.prefix@);
        while n > 0 && cs[n - 1] == '/'
            invariant
                n <= cs.len(),
                cs@ == self.prefix@,
                trim_slashes(self.prefix@) == trim_slashes(self.prefix@.take(n as int)),
            decreases n,
        {
            assert(self.prefix@.take(n as int).drop_last() =~= self.prefix@.take(n as int - 1));
            n = n - 1;
        }
        let mut p = from_chars(&slice_range(&cs, 0, n));
        push_str(&mut p, "/");
        push_str(&mut p, thread_id);
        push_str(&mut p, ".md");
        p
    }
}

/// The role before position `i`, or the empty role at the start.
pub open spec fn role_before(ms: Seq<Message>, i: int) -> Seq<char> {
    if i <= 0 {
        Seq::empty()
    } else {
        ms[i - 1].role@
    }
}

/// Number of turns: runs of consecutive messages of one role (a leading
/// run of empty roles does not count).
pub open spec fn turns_of(ms: Seq<Message>) -> nat
    decreases ms.len(),
{
    if ms.len() == 0 {
        0
    } else {
        turns_of(ms.drop_last()) + if ms.last().role@ != role_before(ms, ms.len() - 1) {
            1nat
        } else {
            0nat
        }
    }
}

/// Counts the turns of a conversation.
pub fn count_turns(messages: &[Message]) -> (r: usize)
    ensures
        r == turns_of(messages@),
{
    let mut turns: usize = 0;
    let mut i: usize = 0;
    while i < messages.len()
        invariant
            i <= messages.len(),
            turns == turns_of(messages@.take(i as int)),
            turns <= i,
        decreases messages.len() - i,
    {
        let ghost pre = messages@.take(i as int + 1);
        assert(pre.drop_last() =~= messages@.take(i as int));
        let changed = if i == 0 {
            proof {
                if messages@[i as int].role@.len() == 0 {
                    assert(messages@[i as int].role@ =~= Seq::<char>::empty());
                }
            }
            !messages[i].role.as_str().is_empty()
        } else {
            !str_eq(messages[i].role.as_str(), messages[i - 1].role.as_str())
        };
        assert(role_before(pre, i as int) == role_before(messages@, i as int));
        assert(pre.last() == messages@[i as int]);
        assert(turns_of(pre) == turns_of(messages@.take(i as int)) + if pre.last().role@ != role_before(pre, i as int) {
            1nat
        } else {
            0nat
        });
        if changed {
            turns = turns + 1;
        }
        i = i + 1;
    }
    assert(messages@.take(messages.len() as int) =~= messages@);
    turns
}

/// A role change seen walking back from the end: the last message counts
/// unless its role is empty, any other when its role differs from the next.
pub open spec fn change_back(ms: Seq<Message>, k: int) -> bool {
    if k == ms.len() - 1 {
        ms[k].role@ != Seq::<char>::empty()
    } else {
        ms[k].role@ != ms[k + 1].role@
    }
}

/// Turns counted walking back from the end down to position `i`.
pub open spec fn turns_back(ms: Seq<Message>, i: int) -> nat
    decreases ms.len() - i,
{
    if i >= ms.len() || i < 0 {
        0
    } else {
        turns_back(ms, i + 1) + if change_back(ms, i) {
            1nat
        } else {
            0nat
        }
    }
}

/// Walking back from position `i - 1`: the first position at which the
/// turns counted reach `max`, or 0.
pub open spec fn turn_cut(ms: Seq<Message>, max: nat, i: int) -> int
    decreases i,
{
    if i <= 0 {
        0
    } else if turns_back(ms, i - 1) >= max {
        i - 1
    } else {
        turn_cut(ms, max, i - 1)
    }
}

/// Where to cut a conversation to keep `max_turns` turns: nothing when it
/// has no more; otherwise the start of the last `max_turns` turns, but
/// never inside the last `min_recent` messages.
pub open spec fn turns_cutoff(ms: Seq<Message>, max_turns: nat, min_recent: nat) -> int {
    if turns_of(ms) <= max_turns {
        0
    } else {
        let idx = turn_cut(ms, max_turns, ms.len() as int);
        let floor = if ms.len() >= min_recent { ms.len() - min_recent } else { 0 };
        if idx < floor { idx } else { floor }
    }
}

proof fn lemma_turn_cut_range(ms: Seq<Message>, max: nat, i: int)
    requires
        0 <= i,
    ensures
        0 <= turn_cut(ms, max, i) <= if i > 0 { i - 1 } else { 0 },
    decreases i,
{
    if i > 0 {
        lemma_turn_cut_range(ms, max, i - 1);
    }
}

/// The cut point of the turn policy.
pub fn cutoff_for_turns(messages: &[Message], max_turns: usize, min_recent: usize) -> (r: usize)
    ensures
        r == turns_cutoff(messages@, max_turns as nat, min_recent as nat),
        r as int <= if messages.len() >= min_recent { messages.len() - min_recent } else { 0 },
{
    if count_turns(messages) <= max_turns {
        return 0;
    }
    let ghost ms = messages@;
    let n = messages.len();
    let mut turns: usize = 0;
    let mut idx: usize = n;
    let mut i: usize = n;
    let mut done = false;
    while i > 0 && !done
        invariant
            i <= n,
            n == messages.len(),
            ms == messages@,
            !done ==> turns == turns_back(ms, i as int) && turn_cut(ms, max_turns as nat, n as int) == turn_cut(ms, max_turns as nat, i as int),
            done ==> idx == turn_cut(ms, max_turns as nat, n as int),
            turns <= n - i,
        decreases i,
    {
        let k = i - 1;
        let changed = if k == n - 1 {
            proof {
                if messages@[k as int].role@.len() == 0 {
                    assert(messages@[k as int].role@ =~= Seq::<char>::empty());
                }
            }
            !messages[k].role.as_str().is_empty()
        } else {
            !str_eq(messages[k].role.as_str(), messages[k + 1].role.as_str())
        };
        assert(turns_back(ms, k as int) == turns_back(ms, k as int + 1) + if change_back(ms, k as int) {
            1nat
        } else {
            0nat
        });
        assert(changed == change_back(ms, k as int));
        if changed {
            turns = turns + 1;
        }
        idx = k;
        if turns >= max_turns {
            done = true;
        }
        i = k;
    }
    if !done {
        idx = 0;
    }
    let floor = if n >= min_recent { n - min_recent } else { 0 };
    if idx < floor { idx } else { floor }
}

/// The characters of messages `from..` of their sizes.
pub open spec fn suffix_total(sizes: Seq<usize>, from: int) -> int
    decreases sizes.len() - from,
{
    if from >= sizes.len() || from < 0 {
        0
    } else {
        sizes[from] + suffix_total(sizes, from + 1)
    }
}

/// The first cut point from `c` on that brings the rest within `max`, or
/// the last one that keeps `keep` messages.
pub open spec fn budget_search(sizes: Seq<usize>, max: nat, keep: nat, c: int) -> int
    decreases sizes.len() - c,
{
    if c + keep >= sizes.len() || suffix_total(sizes, c) <= max || c < 0 {
        c
    } else {
        budget_search(sizes, max, keep, c + 1)
    }
}

/// Where to cut a conversation of the given message sizes to bring it
/// within `max_chars`, never inside the last `min_recent` messages.
pub open spec fn budget_cutoff(sizes: Seq<usize>, max_chars: nat, min_recent: nat) -> int {
    if suffix_total(sizes, 0) <= max_chars {
        0
    } else {
        budget_search(sizes, max_chars, if min_recent < sizes.len() { min_recent } else { sizes.len() }, 0)
    }
}

proof fn lemma_suffix_step(sizes: Seq<usize>, c: int)
    requires
        0 <= c < sizes.len(),
    ensures
        suffix_total(sizes, c) == sizes[c] + suffix_total(sizes, c + 1),
{
}

proof fn lemma_budget_search_range(sizes: Seq<usize>, max: nat, keep: nat, c: int)
    requires
        0 <= c,
        keep <= sizes.len(),
        c + keep <= sizes.len(),
    ensures
        c <= budget_search(sizes, max, keep, c) <= sizes.len() - keep,
    decreases sizes.len() - c,
{
    if !(c + keep >= sizes.len() || suffix_total(sizes, c) <= max) {
        lemma_budget_search_range(sizes, max, keep, c + 1);
    }
}

proof fn lemma_suffix_bound(sizes: Seq<usize>, c: int)
    requires
        0 <= c <= sizes.len(),
    ensures
        0 <= suffix_total(sizes, c) <= (sizes.len() - c) * 0x1_0000_0000_0000_0000,
    decreases sizes.len() - c,
{
    if c < sizes.len() {
        lemma_suffix_bound(sizes, c + 1);
        assert((sizes.len() - (c + 1)) * 0x1_0000_0000_0000_0000 + 0x1_0000_0000_0000_0000 == (sizes.len() - c)
            * 0x1_0000_0000_0000_0000) by (nonlinear_arith);
    }
}

/// The cut point of the budget policy, from the sizes of the messages in
/// characters.
pub fn cutoff_for_budget(sizes: &[usize], max_chars: usize, min_recent: usize) -> (r: usize)
    ensures
        r == budget_cutoff(sizes@, max_chars as nat, min_recent as nat),
        r as int <= sizes.len() - (if min_recent < sizes.len() { min_recent as int } else { sizes.len() as int }),
{
    let n = sizes.len();
    let mut total: u128 = 0;
    let mut j: usize = n;
    proof {
        lemma_suffix_bound(sizes@, 0);
    }
    while j > 0
        invariant
            j <= n,
            n == sizes.len(),
            total == suffix_total(sizes@, j as int),
            suffix_total(sizes@, 0) <= n * 0x1_0000_0000_0000_0000,
            n <= usize::MAX,
        decreases j,
    {
        proof {
            lemma_suffix_step(sizes@, j - 1);
            lemma_suffix_bound(sizes@, j - 1);
            assert((n - (j - 1)) * 0x1_0000_0000_0000_0000 <= 0x1_0000_0000_0000_0000 * 0x1_0000_0000_0000_0000) by (nonlinear_arith)
                requires n <= usize::MAX, j >= 1;
        }
        total = total + sizes[j - 1] as u128;
        j = j - 1;
    }
    let keep = if min_recent < n { min_recent } else { n };
    if total <= max_chars as u128 {
        return 0;
    }
    let mut cutoff: usize = 0;
    let mut remaining: u128 = total;
    while remaining > max_chars as u128 && cutoff + keep < n
        invariant
            keep <= n,
            n == sizes.len(),
            cutoff + keep <= n,
            remaining == suffix_total(sizes@, cutoff as int),
            budget_search(sizes@, max_chars as nat, keep as nat, 0) == budget_search(sizes@, max_chars as nat, keep as nat, cutoff as int),
        decreases n - cutoff,
    {
        proof {
            lemma_suffix_step(sizes@, cutoff as int);
            lemma_suffix_bound(sizes@, cutoff as int + 1);
        }
        remaining = remaining - sizes[cutoff] as u128;
        cutoff = cutoff + 1;
    }
    proof {
        lemma_budget_search_range(sizes@, max_chars as nat, keep as nat, 0);
    }
    cutoff
}

/// A text cut to `max` characters by keeping its first half and its last
/// half around `text`.
pub open spec fn truncated(s: Seq<char>, max: nat, text: Seq<char>) -> Seq<char> {
    if s.len() <= max {
        s
    } else {
        let head = max / 2;
        let tail = max - head;
        s.take(head as int) + text + s.skip(s.len() - tail)
    }
}

/// Cuts the middle of a text out, keeping `max_chars` characters of it.
pub fn truncate_chars(s: &str, max_chars: usize, truncation_text: &str) -> (r: String)
    ensures
        r@ == truncated(s@, max_chars as nat, truncation_text@),
{
    let cs = to_chars(s);
    if cs.len() <= max_chars {
        return owned(s);
    }
    let head = max_chars / 2;
    let tail = max_chars - head;
    let mut out = from_chars(&slice_range(&cs, 0, head));
    push_str(&mut out, truncation_text);
    let t = from_chars(&slice_range(&cs, cs.len() - tail, cs.len()));
    push_str(&mut out, t.as_str());
    assert(s@.subrange(cs.len() - tail, cs.len() as int) =~= s@.skip(cs.len() - tail));
    assert(s@.subrange(0, head as int) =~= s@.take(head as int));
    out
}

/// Tools whose arguments may be cut in old messages.
pub fn should_truncate_tool(name: &str) -> (r: bool)
    ensures
        r == (name@ == "write_file"@ || name@ == "edit_file"@ || name@ == "execute"@),
{
    str_eq(name, "write_file") || str_eq(name, "edit_file") || str_eq(name, "execute")
}

/// Words separated by single spaces.
pub open spec fn compacted(s: Seq<char>) -> Seq<char> {
    joined(ws_split(s), " "@)
}

/// Collapses white space runs to single spaces and trims the ends.
pub fn compact_ws(s: &str) -> (r: String)
    ensures
        r@ == compacted(s@),
{
    let words = split_whitespace(s);
    join(words.as_slice(), " ")
}

/// The first `max` characters, compacted.
pub fn preview(s: &str, max: usize) -> (r: String)
    ensures
        r@ == compacted(s@.take(if max < s@.len() { max as int } else { s@.len() as int })),
{
    let head = take_chars(s, max);
    compact_ws(head.as_str())
}

/// A message stands for a summary of cut history.
pub open spec fn is_summary(m: Message) -> bool {
    opt_str_view(m.name) == Some("summarization"@) || contains(m.content@, "SUMMARY_MESSAGE_V1"@)
}

/// Whether a message is a summary of cut history.
pub fn is_summary_message(msg: &Message) -> (r: bool)
    ensures
        r == is_summary(*msg),
{
    let named = match &msg.name {
        Some(n) => str_eq(n.as_str(), "summarization"),
        None => false,
    };
    named || str_contains(msg.content.as_str(), "SUMMARY_MESSAGE_V1")
}

/// One line of a summary: the role and a compact preview of the content.
pub open spec fn summary_line(m: Message) -> Seq<char> {
    m.role@ + ": "@ + compacted(m.content@.take(if 80 < m.content@.len() { 80 } else { m.content@.len() as int }))
}

/// The lines of a summary of `ms`: a marker, the count, the first four
/// messages, `...` when more than six, and the last two.
pub open spec fn summary_lines(ms: Seq<Message>) -> Seq<Seq<char>> {
    let n = ms.len() as int;
    let first = if n < 4 { n } else { 4 };
    let last = if n < 2 { n } else { 2 };
    seq!["SUMMARY_MESSAGE_V1"@, "summary_messages="@ + decimal(ms.len())]
        + ms.take(first).map_values(|m: Message| summary_line(m))
        + (if n > 6 { seq!["..."@] } else { Seq::<Seq<char>>::empty() })
        + ms.skip(n - last).map_values(|m: Message| summary_line(m))
}

/// The text of a summary, cut to `max` characters.
pub open spec fn summary_text(ms: Seq<Message>, max: nat) -> Seq<char> {
    truncated(joined(summary_lines(ms), "\n"@), max, "...(summary truncated)..."@)
}

fn summary_line_exec(m: &Message) -> (r: String)
    ensures
        r@ == summary_line(*m),
{
    let mut s = m.role.clone();
    push_str(&mut s, ": ");
    let p = preview(m.content.as_str(), 80);
    push_str(&mut s, p.as_str());
    s
}

/// The user message that stands in for cut messages.
pub fn build_summary_message(messages: &[Message], max_chars: usize) -> (r: Message)
    ensures
        r.role@ == "user"@,
        r.content@ == summary_text(messages@, max_chars as nat),
        opt_str_view(r.name) == Some("summarization"@),
        r.content_blocks is None,
        r.reasoning_content is None,
        r.tool_calls is None,
        r.tool_call_id is None,
        r.status is None,
{
    let ghost ms = messages@;
    let n = messages.len();
    let mut lines: Vec<String> = Vec::new();
    lines.push(owned("SUMMARY_MESSAGE_V1"));
    let mut count = owned("summary_messages=");
    let d = u64_to_decimal(n as u64);
    push_str(&mut count, d.as_str());
    lines.push(count);
    let ghost base = lines@.map_values(|t: String| t@);
    assert(base =~= seq!["SUMMARY_MESSAGE_V1"@, "summary_messages="@ + decimal(ms.len())]);
    let first = if n < 4 { n } else { 4 };
    let mut i: usize = 0;
    while i < first
        invariant
            i <= first <= n,
            n == messages.len(),
            ms == messages@,
            lines@.map_values(|t: String| t@) == base + ms.take(i as int).map_values(|m: Message| summary_line(m)),
        decreases first - i,
    {
        let ghost prev = lines@.map_values(|t: String| t@);
        let l = summary_line_exec(&messages[i]);
        lines.push(l);
        assert(lines@.map_values(|t: String| t@) =~= prev.push(summary_line(ms[i as int])));
        assert(ms.take(i as int + 1).map_values(|m: Message| summary_line(m)) =~= ms.take(i as int).map_values(
            |m: Message| summary_line(m),
        ).push(summary_line(ms[i as int])));
        i = i + 1;
    }
    let ghost mid = lines@.map_values(|t: String| t@);
    if n > 6 {
        lines.push(owned("..."));
        assert(lines@.map_values(|t: String| t@) =~= mid + seq!["..."@]);
    } else {
        assert(mid + Seq::<Seq<char>>::empty() =~= mid);
    }
    let ghost mid2 = lines@.map_values(|t: String| t@);
    let last = if n < 2 { n } else { 2 };
    let mut j: usize = n - last;
    while j < n
        invariant
            n - last <= j <= n,
            last <= n,
            n == messages.len(),
            ms == messages@,
            lines@.map_values(|t: String| t@) == mid2 + ms.subrange(n - last, j as int).map_values(|m: Message| summary_line(m)),
        decreases n - j,
    {
        let ghost prev = lines@.map_values(|t: String| t@);
        let l = summary_line_exec(&messages[j]);
        lines.push(l);
        assert(lines@.map_values(|t: String| t@) =~= prev.push(summary_line(ms[j as int])));
        assert(ms.subrange(n - last, j as int + 1).map_values(|m: Message| summary_line(m)) =~= ms.subrange(
            n - last,
            j as int,
        ).map_values(|m: Message| summary_line(m)).push(summary_line(ms[j as int])));
        j = j + 1;
    }
    assert(ms.subrange(n - last, n as int) =~= ms.skip(n - last));
    assert(lines@.map_values(|t: String| t@) =~= summary_lines(ms));
    let content = join(lines.as_slice(), "\n");
    let content = truncate_chars(content.as_str(), max_chars, "...(summary truncated)...");
    Message {
        role: owned("user"),
        content,
        content_blocks: None,
        reasoning_content: None,
        tool_calls: None,
        tool_call_id: None,
        name: Some(owned("summarization")),
        status: None,
    }
}

/// Whether the conversation is over the policy's limit: characters for the
/// budget and importance policies, turns for the turns policy.
pub open spec fn over_limit(policy: SummarizationPolicyKind, sizes: Seq<usize>, ms: Seq<Message>, max_chars: nat, max_turns: nat) -> bool {
    match policy {
        SummarizationPolicyKind::Turns => turns_of(ms) > max_turns,
        _ => suffix_total(sizes, 0) > max_chars,
    }
}

proof fn lemma_suffix_total_nonneg(sizes: Seq<usize>, from: int)
    ensures
        suffix_total(sizes, from) >= 0,
    decreases sizes.len() - from,
{
    if 0 <= from < sizes.len() {
        lemma_suffix_total_nonneg(sizes, from + 1);
    }
}

/// Whether the conversation needs summarizing; `sizes[i]` is the size of
/// message `i` in characters.
pub fn should_summarize(
    policy: SummarizationPolicyKind,
    sizes: &[usize],
    messages: &[Message],
    max_char_budget: usize,
    max_turns_visible: usize,
) -> (r: bool)
    requires
        sizes.len() == messages.len(),
    ensures
        r == over_limit(policy, sizes@, messages@, max_char_budget as nat, max_turns_visible as nat),
{
    match policy {
        SummarizationPolicyKind::Turns => count_turns(messages) > max_turns_visible,
        _ => {
            let mut total: u128 = 0;
            let mut j: usize = sizes.len();
            while j > 0
                invariant
                    j <= sizes.len(),
                    total == suffix_total(sizes@, j as int),
                    total <= (sizes.len() - j) * 0x1_0000_0000_0000_0000,
                    sizes.len() <= usize::MAX,
                decreases j,
            {
                j = j - 1;
                assert(total + sizes[j as int] <= (sizes.len() - j) * 0x1_0000_0000_0000_0000) by (nonlinear_arith)
                    requires
                        total <= (sizes.len() - (j + 1)) * 0x1_0000_0000_0000_0000,
                        sizes[j as int] < 0x1_0000_0000_0000_0000,
                ;
                assert((sizes.len() - j) * 0x1_0000_0000_0000_0000 <= 0x1_0000_0000_0000_0000 * 0x1_0000_0000_0000_0000)
                    by (nonlinear_arith)
                    requires
                        sizes.len() <= 0x1_0000_0000_0000_0000,
                        j >= 0,
                ;
                total = total + sizes[j] as u128;
            }
            total > max_char_budget as u128
        },
    }
}

/// The cut point of the policy.
pub open spec fn policy_cutoff(policy: SummarizationPolicyKind, sizes: Seq<usize>, ms: Seq<Message>, max_chars: nat, max_turns: nat, min_recent: nat) -> int {
    match policy {
        SummarizationPolicyKind::Turns => turns_cutoff(ms, max_turns, min_recent),
        _ => budget_cutoff(sizes, max_chars, min_recent),
    }
}

/// The cut point of the policy: turns for the turns policy, the character
/// budget otherwise.
pub fn compute_cutoff(
    policy: SummarizationPolicyKind,
    sizes: &[usize],
    messages: &[Message],
    max_char_budget: usize,
    max_turns_visible: usize,
    min_recent_messages: usize,
) -> (r: usize)
    requires
        sizes.len() == messages.len(),
    ensures
        r == policy_cutoff(policy, sizes@, messages@, max_char_budget as nat, max_turns_visible as nat, min_recent_messages as nat),
{
    match policy {
        SummarizationPolicyKind::Turns => cutoff_for_turns(messages, max_turns_visible, min_recent_messages),
        _ => cutoff_for_budget(sizes, max_char_budget, min_recent_messages),
    }
}

/// Where history is cut in the full conversation: the cut of the visible
/// messages, shifted past an earlier cut (whose summary stands first among
/// the visible ones).
pub open spec fn cutoff_in_full(prior: Option<usize>, effective: nat) -> int {
    match prior {
        Some(p) => if effective == 0 {
            0
        } else {
            p + effective - 1
        },
        None => effective as int,
    }
}

/// Where history is cut in the full conversation, if it is cut: not at the
/// start and not past the end.
pub fn state_cutoff(prior: Option<usize>, effective: usize, total_messages: usize) -> (r: Option<usize>)
    requires
        prior matches Some(p) ==> p + effective <= usize::MAX + 1,
    ensures
        ({
            let c = cutoff_in_full(prior, effective as nat);
            &&& (c == 0 || c >= total_messages) ==> r is None
            &&& !(c == 0 || c >= total_messages) ==> r == Some(c as usize)
        }),
{
    let c = match prior {
        Some(p) => if effective == 0 {
            0
        } else {
            p + (effective - 1)
        },
        None => effective,
    };
    if c == 0 || c >= total_messages {
        None
    } else {
        Some(c)
    }
}

/// The conversation as the model sees it after a cut: the summary, then
/// the messages from the cut on (none where the cut is past the end).
pub fn visible_after_cut(messages: &[Message], cutoff: usize, summary: &Message) -> (r: Vec<Message>)
    ensures
        r@.len() >= 1,
        r@[0]@ == summary@,
        messages_view(r@.drop_first()) == messages_view(messages@.subrange(
            if cutoff < messages@.len() { cutoff as int } else { messages@.len() as int },
            messages@.len() as int,
        )),
{
    let mut out: Vec<Message> = Vec::new();
    out.push(summary.clone());
    let start = if cutoff < messages.len() {
        cutoff
    } else {
        messages.len()
    };
    let mut i: usize = start;
    assert(out@.drop_first() =~= Seq::<Message>::empty());
    assert(messages@.subrange(start as int, start as int) =~= Seq::<Message>::empty());
    while i < messages.len()
        invariant
            start <= i <= messages.len(),
            out@.len() >= 1,
            out@[0]@ == summary@,
            messages_view(out@.drop_first()) == messages_view(messages@.subrange(start as int, i as int)),
        decreases messages.len() - i,
    {
        let ghost prev = out@;
        out.push(messages[i].clone());
        proof {
            assert(out@.drop_first() =~= prev.drop_first().push(out@.last()));
            assert(messages@.subrange(start as int, i as int + 1) =~= messages@.subrange(start as int, i as int).push(messages@[i as int]));
            assert(out@.last()@ == messages@[i as int]@);
            assert(messages_view(out@.drop_first()) =~= messages_view(prev.drop_first()).push(messages@[i as int]@));
            assert(messages_view(messages@.subrange(start as int, i as int + 1)) =~= messages_view(
                messages@.subrange(start as int, i as int),
            ).push(messages@[i as int]@));
        }
        i = i + 1;
    }
    out
}

/// The messages a cut removes, without earlier summaries: those from the
/// earlier cut up to the new one.
pub open spec fn pruned_of(ms: Seq<Message>, from: int, to: int) -> Seq<Message> {
    ms.subrange(from, to).filter(|m: Message| !is_summary(m))
}

/// The messages a cut removes, without earlier summaries.
pub fn pruned_messages(messages: &[Message], from: usize, to: usize) -> (r: Vec<Message>)
    requires
        from <= to <= messages.len(),
    ensures
        messages_view(r@) == messages_view(pruned_of(messages@, from as int, to as int)),
{
    let mut out: Vec<Message> = Vec::new();
    let mut i: usize = from;
    proof {
        assert(messages@.subrange(from as int, from as int) =~= Seq::<Message>::empty());
        assert(Seq::<Message>::empty().filter(|m: Message| !is_summary(m)) =~= Seq::<Message>::empty()) by {
            reveal(Seq::filter);
        }
    }
    while i < to
        invariant
            from <= i <= to <= messages.len(),
            messages_view(out@) == messages_view(pruned_of(messages@, from as int, i as int)),
        decreases to - i,
    {
        let ghost prev = messages_view(out@);
        proof {
            crate::text::lemma_filter_push(messages@.subrange(from as int, i as int), |m: Message| !is_summary(m), messages@[i as int]);
            assert(messages@.subrange(from as int, i as int + 1) =~= messages@.subrange(from as int, i as int).push(messages@[i as int]));
        }
        if !is_summary_message(&messages[i]) {
            out.push(messages[i].clone());
            proof {
                let p = pruned_of(messages@, from as int, i as int);
                assert(messages_view(p.push(messages@[i as int])) =~= messages_view(p).push(messages@[i as int]@));
                assert(messages_view(out@) =~= prev.push(messages@[i as int]@));
            }
        }
        i = i + 1;
    }
    out
}

} // verus!
