//! The skills block of a conversation: one system message, replaced each
//! time the active skills are injected.
use vstd::prelude::*;

use crate::text::{contains, lemma_filter_push, str_contains};
use crate::types::{Message, MessageView, messages_view};

verus! {

/// A message carries one of the markers of an injected skills block.
pub open spec fn is_skills_block(m: MessageView) -> bool {
    contains(m.content, "DEEPAGENTS_SKILLS_INJECTED_V1"@) || contains(m.content, "DEEPAGENTS_SKILLS_INJECTED_V2"@)
}

/// Drops every earlier skills block and puts the new one first, as a
/// system message.
pub fn upsert_injection_message(messages: &mut Vec<Message>, block: &str)
    ensures
        final(messages)@.len() >= 1,
        final(messages)@[0].role@ == "system"@,
        final(messages)@[0].content@ == block@,
        final(messages)@[0].content_blocks is None,
        final(messages)@[0].tool_calls is None,
        final(messages)@[0].tool_call_id is None,
        messages_view(final(messages)@.drop_first()) == messages_view(old(messages)@).filter(|m: MessageView| !is_skills_block(m)),
{
    let ghost before = messages_view(messages@);
    let mut kept: Vec<Message> = Vec::new();
    kept.push(Message::text("system", block));
    let mut i: usize = 0;
    while i < messages.len()
        invariant
            i <= messages.len(),
            before == messages_view(messages@),
            kept@.len() >= 1,
            kept@[0].role@ == "system"@,
            kept@[0].content@ == block@,
            kept@[0].content_blocks is None,
            kept@[0].tool_calls is None,
            kept@[0].tool_call_id is None,
            messages_view(kept@.drop_first()) == before.take(i as int).filter(|m: MessageView| !is_skills_block(m)),
        decreases messages.len() - i,
    {
        proof {
            assert(before.take(i as int + 1).drop_last() =~= before.take(i as int));
            assert(before.take(i as int + 1).last() == before[i as int]);
            assert(before[i as int] == messages@[i as int]@);
        }
        let marked = str_contains(messages[i].content.as_str(), "DEEPAGENTS_SKILLS_INJECTED_V1")
            || str_contains(messages[i].content.as_str(), "DEEPAGENTS_SKILLS_INJECTED_V2");
        let ghost prev = messages_view(kept@.drop_first());
        proof {
            lemma_filter_push(before.take(i as int), |m: MessageView| !is_skills_block(m), before[i as int]);
            assert(before.take(i as int + 1) =~= before.take(i as int).push(before[i as int]));
        }
        if !marked {
            kept.push(messages[i].clone());
            assert(messages_view(kept@.drop_first()) =~= prev.push(before[i as int]));
        } else {
            assert(messages_view(kept@.drop_first()) =~= prev);
        }
        i = i + 1;
    }
    assert(before.take(i as int) =~= before);
    *messages = kept;
}

} // verus!
