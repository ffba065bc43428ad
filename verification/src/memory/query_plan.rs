//! The queries a request is matched against when memory is selected, and
//! the word tokens both sides are compared by.
use vstd::prelude::*;

use crate::memory::protocol::MemoryEntry;
use crate::memory::retrieval::{MemoryIntent, memory_type_label, memory_type_text};
use crate::string_set::StringSet;
use crate::text::{char_is_ascii_alnum, chars_to_lower, from_chars, is_ascii_alnum, is_blank, lower, owned, str_is_blank, str_trim, to_chars, trim};

verus! {

/// The pieces of a text between characters that are not ASCII letters or
/// digits (`str::split` with that predicate): `n` separators give `n + 1`
/// pieces, empty ones included.
pub open spec fn alnum_pieces(s: Seq<char>) -> Seq<Seq<char>>
    decreases s.len(),
{
    if s.len() == 0 {
        seq![Seq::<char>::empty()]
    } else {
        let r = alnum_pieces(s.drop_last());
        if is_ascii_alnum(s.last()) {
            r.update(r.len() - 1, r.last().push(s.last()))
        } else {
            r.push(Seq::<char>::empty())
        }
    }
}

/// The tokens of pieces: those of two characters or more, lower-cased.
pub open spec fn tokens_of(pieces: Seq<Seq<char>>) -> Set<Seq<char>> {
    Set::new(|t: Seq<char>| exists|k: int| 0 <= k < pieces.len() && (#[trigger] pieces[k]).len() >= 2 && t == lower(pieces[k]))
}

/// The word tokens of a text.
pub open spec fn token_set(s: Seq<char>) -> Set<Seq<char>> {
    tokens_of(alnum_pieces(s))
}

proof fn lemma_pieces_nonempty(s: Seq<char>)
    ensures
        alnum_pieces(s).len() >= 1,
    decreases s.len(),
{
    if s.len() > 0 {
        lemma_pieces_nonempty(s.drop_last());
    }
}

proof fn lemma_tokens_push(ps: Seq<Seq<char>>, p: Seq<char>)
    ensures
        tokens_of(ps.push(p)) == if p.len() >= 2 {
            tokens_of(ps).insert(lower(p))
        } else {
            tokens_of(ps)
        },
{
    let a = tokens_of(ps.push(p));
    let b = if p.len() >= 2 {
        tokens_of(ps).insert(lower(p))
    } else {
        tokens_of(ps)
    };
    assert forall|t: Seq<char>| a.contains(t) implies b.contains(t) by {
        let k = choose|k: int| 0 <= k < ps.push(p).len() && (#[trigger] ps.push(p)[k]).len() >= 2 && t == lower(ps.push(p)[k]);
        if k < ps.len() {
            assert(ps[k] == ps.push(p)[k]);
        }
    }
    assert forall|t: Seq<char>| b.contains(t) implies a.contains(t) by {
        if p.len() >= 2 && t == lower(p) {
            assert(ps.push(p)[ps.len() as int] == p);
        } else {
            let k = choose|k: int| 0 <= k < ps.len() && (#[trigger] ps[k]).len() >= 2 && t == lower(ps[k]);
            assert(ps.push(p)[k] == ps[k]);
        }
    }
    assert(a =~= b);
}

/// The word tokens of a text: its runs of ASCII letters and digits of two
/// characters or more, lower-cased, as a set.
pub fn tokenize(input: &str) -> (r: StringSet)
    ensures
        r.view_set() == token_set(input@),
{
    let cs = to_chars(input);
    let mut out = StringSet::new();
    let mut cur: Vec<char> = Vec::new();
    let mut i: usize = 0;
    proof {
        assert(cs@.take(0) =~= Seq::<char>::empty());
        assert(out.view_set() =~= Set::<Seq<char>>::empty());
        assert(tokens_of(Seq::<Seq<char>>::empty()) =~= Set::<Seq<char>>::empty());
        assert(alnum_pieces(Seq::<char>::empty()).drop_last() =~= Seq::<Seq<char>>::empty());
    }
    while i < cs.len()
        invariant
            i <= cs.len(),
            cs@ == input@,
            alnum_pieces(cs@.take(i as int)).len() >= 1,
            cur@ == alnum_pieces(cs@.take(i as int)).last(),
            out.view_set() == tokens_of(alnum_pieces(cs@.take(i as int)).drop_last()),
        decreases cs.len() - i,
    {
        let ghost pre = cs@.take(i as int);
        let ghost ps = alnum_pieces(pre);
        proof {
            assert(cs@.take(i as int + 1).drop_last() =~= pre);
            assert(cs@.take(i as int + 1).last() == cs@[i as int]);
        }
        let c = cs[i];
        if char_is_ascii_alnum(c) {
            cur.push(c);
            proof {
                let nps = alnum_pieces(cs@.take(i as int + 1));
                assert(nps == ps.update(ps.len() - 1, ps.last().push(c)));
                assert(nps.drop_last() =~= ps.drop_last());
            }
        } else {
            let ghost done = cur@;
            if cur.len() >= 2 {
                let low = chars_to_lower(&cur);
                out.insert(from_chars(&low));
            }
            cur = Vec::new();
            proof {
                let nps = alnum_pieces(cs@.take(i as int + 1));
                assert(nps == ps.push(Seq::<char>::empty()));
                assert(nps.drop_last() =~= ps.drop_last().push(done));
                assert(ps =~= ps.drop_last().push(ps.last()));
                lemma_tokens_push(ps.drop_last(), done);
                assert(cur@ =~= nps.last());
            }
        }
        i = i + 1;
    }
    proof {
        assert(cs@.take(cs.len() as int) =~= cs@);
    }
    let ghost ps = alnum_pieces(cs@);
    let ghost last = cur@;
    if cur.len() >= 2 {
        let low = chars_to_lower(&cur);
        out.insert(from_chars(&low));
    }
    proof {
        assert(ps =~= ps.drop_last().push(last));
        lemma_tokens_push(ps.drop_last(), last);
    }
    out
}

/// A query that memory entries are scored against: a name, its text, its
/// weight in thousandths and the text's tokens.
#[derive(Debug, Clone)]
pub struct PlannedQuery {
    pub name: String,
    pub text: String,
    pub weight_permille: u32,
    pub tokens: StringSet,
}

/// The queries planned for a request, as (name, text, weight in
/// thousandths): the request itself where it is not blank; the user's
/// preferences for personal requests; active goals for planning; the
/// workspace's context for workspace requests, where there is a workspace.
pub open spec fn planned_queries_of(message: Seq<char>, intent: MemoryIntent, has_workspace: bool) -> Seq<(Seq<char>, Seq<char>, u32)> {
    let direct = if is_blank(message) {
        Seq::empty()
    } else {
        seq![("direct"@, trim(message), 1000u32)]
    };
    let prefs = match intent {
        MemoryIntent::PreferenceSensitive | MemoryIntent::Personal | MemoryIntent::Mixed | MemoryIntent::MemorizeCommand => seq![
            ("preferences"@, "preferences reply style language tone"@, 750u32),
        ],
        _ => Seq::empty(),
    };
    let goals = match intent {
        MemoryIntent::PlanningTask | MemoryIntent::Mixed => seq![("active_goals"@, "active goals tasks deadlines next steps"@, 600u32)],
        _ => Seq::empty(),
    };
    let workspace = if has_workspace && (intent == MemoryIntent::Workspace || intent == MemoryIntent::Mixed) {
        seq![("workspace_context"@, "workspace project team release conventions decisions"@, 700u32)]
    } else {
        Seq::empty()
    };
    direct + prefs + goals + workspace
}

/// The name, text and weight of a planned query.
pub open spec fn query_parts(q: PlannedQuery) -> (Seq<char>, Seq<char>, u32) {
    (q.name@, q.text@, q.weight_permille)
}

fn planned_query(name: &str, text: &str, weight_permille: u32) -> (r: PlannedQuery)
    ensures
        query_parts(r) == (name@, text@, weight_permille),
        r.tokens.view_set() == token_set(text@),
{
    PlannedQuery { name: owned(name), text: owned(text), weight_permille, tokens: tokenize(text) }
}

/// Plans the queries for a request.
pub fn planned_queries(message: &str, intent: MemoryIntent, has_workspace: bool) -> (r: Vec<PlannedQuery>)
    ensures
        r@.map_values(|q: PlannedQuery| query_parts(q)) == planned_queries_of(message@, intent, has_workspace),
        forall|k: int| 0 <= k < r.len() ==> (#[trigger] r@[k]).tokens.view_set() == token_set(r@[k].text@),
{
    let mut out: Vec<PlannedQuery> = Vec::new();
    let ghost mut expected: Seq<(Seq<char>, Seq<char>, u32)> = Seq::empty();
    if !str_is_blank(message) {
        let t = str_trim(message);
        out.push(planned_query("direct", t.as_str(), 1000));
        proof {
            expected = seq![("direct"@, trim(message@), 1000u32)];
        }
    }
    assert(out@.map_values(|q: PlannedQuery| query_parts(q)) =~= expected);
    let prefs = match intent {
        MemoryIntent::PreferenceSensitive | MemoryIntent::Personal | MemoryIntent::Mixed | MemoryIntent::MemorizeCommand => true,
        _ => false,
    };
    if prefs {
        out.push(planned_query("preferences", "preferences reply style language tone", 750));
        proof {
            expected = expected.push(("preferences"@, "preferences reply style language tone"@, 750u32));
        }
    }
    assert(out@.map_values(|q: PlannedQuery| query_parts(q)) =~= expected);
    let goals = match intent {
        MemoryIntent::PlanningTask | MemoryIntent::Mixed => true,
        _ => false,
    };
    if goals {
        out.push(planned_query("active_goals", "active goals tasks deadlines next steps", 600));
        proof {
            expected = expected.push(("active_goals"@, "active goals tasks deadlines next steps"@, 600u32));
        }
    }
    assert(out@.map_values(|q: PlannedQuery| query_parts(q)) =~= expected);
    if has_workspace && (intent == MemoryIntent::Workspace || intent == MemoryIntent::Mixed) {
        out.push(planned_query("workspace_context", "workspace project team release conventions decisions", 700));
        proof {
            expected = expected.push(("workspace_context"@, "workspace project team release conventions decisions"@, 700u32));
        }
    }
    assert(out@.map_values(|q: PlannedQuery| query_parts(q)) =~= expected);
    assert(expected =~= planned_queries_of(message@, intent, has_workspace));
    out
}

/// Adds every element of `other` to `set`.
fn extend_set(set: &mut StringSet, other: &StringSet)
    ensures
        final(set).view_set() == old(set).view_set().union(other.view_set()),
{
    let items = other.as_slice();
    let ghost start = set.view_set();
    let mut i: usize = 0;
    while i < items.len()
        invariant
            i <= items.len(),
            crate::string_set::string_views(items@) == other.elems(),
            set.view_set() == start.union(other.elems().take(i as int).to_set()),
        decreases items.len() - i,
    {
        let ghost prev = set.view_set();
        set.insert(items[i].clone());
        proof {
            let e = other.elems();
            assert(e[i as int] == items@[i as int]@);
            assert(e.take(i as int + 1) =~= e.take(i as int).push(e[i as int]));
            assert(e.take(i as int + 1).to_set() =~= e.take(i as int).to_set().insert(e[i as int])) by {
                e.take(i as int).lemma_push_to_set_commute(e[i as int]);
            }
            assert(set.view_set() =~= start.union(e.take(i as int + 1).to_set()));
        }
        i = i + 1;
    }
    proof {
        assert(other.elems().take(items.len() as int) =~= other.elems());
    }
}

/// The tokens of the tags.
pub open spec fn tag_tokens(tags: Seq<String>) -> Set<Seq<char>>
    decreases tags.len(),
{
    if tags.len() == 0 {
        Set::empty()
    } else {
        tag_tokens(tags.drop_last()).union(token_set(tags.last()@))
    }
}

/// The tokens of a memory entry: of its title, value, key, tags and type.
pub open spec fn entry_token_set(e: MemoryEntry) -> Set<Seq<char>> {
    let title = match e.title {
        Some(t) => t@,
        None => Seq::empty(),
    };
    token_set(title).union(token_set(e.value@)).union(token_set(e.key@)).union(tag_tokens(e.tags@)).union(
        token_set(memory_type_text(e.memory_type)),
    )
}

/// The tokens a memory entry is matched by.
pub fn entry_tokens(entry: &MemoryEntry) -> (r: StringSet)
    ensures
        r.view_set() == entry_token_set(*entry),
{
    let mut tokens = match &entry.title {
        Some(t) => tokenize(t.as_str()),
        None => tokenize(""),
    };
    proof {
        assert(""@ =~= Seq::<char>::empty()) by {
            reveal_strlit("");
        }
    }
    extend_set(&mut tokens, &tokenize(entry.value.as_str()));
    extend_set(&mut tokens, &tokenize(entry.key.as_str()));
    let ghost before_tags = tokens.view_set();
    let mut i: usize = 0;
    while i < entry.tags.len()
        invariant
            i <= entry.tags.len(),
            tokens.view_set() == before_tags.union(tag_tokens(entry.tags@.take(i as int))),
        decreases entry.tags.len() - i,
    {
        proof {
            assert(entry.tags@.take(i as int + 1).drop_last() =~= entry.tags@.take(i as int));
            assert(entry.tags@.take(i as int + 1).last() == entry.tags@[i as int]);
        }
        extend_set(&mut tokens, &tokenize(entry.tags[i].as_str()));
        proof {
            assert(tokens.view_set() =~= before_tags.union(tag_tokens(entry.tags@.take(i as int + 1))));
        }
        i = i + 1;
    }
    proof {
        assert(entry.tags@.take(entry.tags.len() as int) =~= entry.tags@);
    }
    extend_set(&mut tokens, &tokenize(memory_type_label(entry.memory_type)));
    proof {
        assert(tokens.view_set() =~= entry_token_set(*entry));
    }
    tokens
}

} // verus!
