//! Ordering of runtime middlewares: by slot, then by label, with at most
//! one middleware in each slot but the user slot.
use vstd::prelude::*;

use crate::text::{lemma_lex_asymmetric, lemma_lex_total, lemma_lex_transitive, lex_lt, owned, push_str, str_lt};

verus! {

/// The stage a runtime middleware belongs to; middlewares run in the order
/// of the slots as declared.
#[derive(Debug, Clone, Copy, PartialEq, Eq, PartialOrd, Ord, Structural)]
pub enum RuntimeMiddlewareSlot {
    TodoList,
    Memory,
    Skills,
    FilesystemRuntime,
    Subagents,
    Summarization,
    PromptCaching,
    PatchToolCalls,
    /// User middlewares: the one slot that may hold several.
    User,
    Hitl,
}

/// The position of a slot in the declared order.
pub open spec fn slot_rank(s: RuntimeMiddlewareSlot) -> nat {
    match s {
        RuntimeMiddlewareSlot::TodoList => 0,
        RuntimeMiddlewareSlot::Memory => 1,
        RuntimeMiddlewareSlot::Skills => 2,
        RuntimeMiddlewareSlot::FilesystemRuntime => 3,
        RuntimeMiddlewareSlot::Subagents => 4,
        RuntimeMiddlewareSlot::Summarization => 5,
        RuntimeMiddlewareSlot::PromptCaching => 6,
        RuntimeMiddlewareSlot::PatchToolCalls => 7,
        RuntimeMiddlewareSlot::User => 8,
        RuntimeMiddlewareSlot::Hitl => 9,
    }
}

/// The name `Debug` writes for a slot.
pub open spec fn slot_name(s: RuntimeMiddlewareSlot) -> Seq<char> {
    match s {
        RuntimeMiddlewareSlot::TodoList => "TodoList"@,
        RuntimeMiddlewareSlot::Memory => "Memory"@,
        RuntimeMiddlewareSlot::Skills => "Skills"@,
        RuntimeMiddlewareSlot::FilesystemRuntime => "FilesystemRuntime"@,
        RuntimeMiddlewareSlot::Subagents => "Subagents"@,
        RuntimeMiddlewareSlot::Summarization => "Summarization"@,
        RuntimeMiddlewareSlot::PromptCaching => "PromptCaching"@,
        RuntimeMiddlewareSlot::PatchToolCalls => "PatchToolCalls"@,
        RuntimeMiddlewareSlot::User => "User"@,
        RuntimeMiddlewareSlot::Hitl => "Hitl"@,
    }
}

impl RuntimeMiddlewareSlot {
    /// The position of the slot in the declared order.
    pub fn rank(&self) -> (r: u8)
        ensures
            r == slot_rank(*self),
    {
        match self {
            RuntimeMiddlewareSlot::TodoList => 0,
            RuntimeMiddlewareSlot::Memory => 1,
            RuntimeMiddlewareSlot::Skills => 2,
            RuntimeMiddlewareSlot::FilesystemRuntime => 3,
            RuntimeMiddlewareSlot::Subagents => 4,
            RuntimeMiddlewareSlot::Summarization => 5,
            RuntimeMiddlewareSlot::PromptCaching => 6,
            RuntimeMiddlewareSlot::PatchToolCalls => 7,
            RuntimeMiddlewareSlot::User => 8,
            RuntimeMiddlewareSlot::Hitl => 9,
        }
    }

    /// The slot's name, as `Debug` writes it.
    pub fn name(&self) -> (r: String)
        ensures
            r@ == slot_name(*self),
    {
        match self {
            RuntimeMiddlewareSlot::TodoList => owned("TodoList"),
            RuntimeMiddlewareSlot::Memory => owned("Memory"),
            RuntimeMiddlewareSlot::Skills => owned("Skills"),
            RuntimeMiddlewareSlot::FilesystemRuntime => owned("FilesystemRuntime"),
            RuntimeMiddlewareSlot::Subagents => owned("Subagents"),
            RuntimeMiddlewareSlot::Summarization => owned("Summarization"),
            RuntimeMiddlewareSlot::PromptCaching => owned("PromptCaching"),
            RuntimeMiddlewareSlot::PatchToolCalls => owned("PatchToolCalls"),
            RuntimeMiddlewareSlot::User => owned("User"),
            RuntimeMiddlewareSlot::Hitl => owned("Hitl"),
        }
    }
}

/// A middleware with the slot and label it is ordered by.
#[derive(Debug, Clone)]
pub struct RuntimeMiddlewareDescriptor<M> {
    pub slot: RuntimeMiddlewareSlot,
    pub label: &'static str,
    pub middleware: M,
}

/// `a` comes strictly before `b`: a lower slot, or the same slot and a
/// smaller label.
pub open spec fn desc_lt<M>(a: RuntimeMiddlewareDescriptor<M>, b: RuntimeMiddlewareDescriptor<M>) -> bool {
    slot_rank(a.slot) < slot_rank(b.slot) || (slot_rank(a.slot) == slot_rank(b.slot) && lex_lt(a.label@, b.label@))
}

/// Inserts `x` into `s` after every element that does not come after it.
pub open spec fn insert_sorted<M>(s: Seq<RuntimeMiddlewareDescriptor<M>>, x: RuntimeMiddlewareDescriptor<M>) -> Seq<RuntimeMiddlewareDescriptor<M>>
    decreases s.len(),
{
    if s.len() == 0 {
        seq![x]
    } else if desc_lt(x, s.last()) {
        insert_sorted(s.drop_last(), x).push(s.last())
    } else {
        s.push(x)
    }
}

/// The stable sort of descriptors by slot, then label (insertion sort):
/// descriptors that tie keep their order.
pub open spec fn sorted_descriptors<M>(s: Seq<RuntimeMiddlewareDescriptor<M>>) -> Seq<RuntimeMiddlewareDescriptor<M>>
    decreases s.len(),
{
    if s.len() == 0 {
        s
    } else {
        insert_sorted(sorted_descriptors(s.drop_last()), s.last())
    }
}

/// No descriptor comes strictly before one placed ahead of it.
pub open spec fn is_ordered<M>(s: Seq<RuntimeMiddlewareDescriptor<M>>) -> bool {
    forall|i: int, j: int| 0 <= i < j < s.len() ==> !desc_lt(#[trigger] s[j], #[trigger] s[i])
}

/// The first slot, other than the user slot, that two neighbours share.
pub open spec fn first_duplicate_slot<M>(s: Seq<RuntimeMiddlewareDescriptor<M>>) -> Option<RuntimeMiddlewareSlot>
    decreases s.len(),
{
    if s.len() < 2 {
        None
    } else {
        match first_duplicate_slot(s.drop_last()) {
            Some(d) => Some(d),
            None => if s.last().slot == s[s.len() - 2].slot && s.last().slot != RuntimeMiddlewareSlot::User {
                Some(s.last().slot)
            } else {
                None
            },
        }
    }
}

/// What ordering the descriptors gives: their middlewares in order, or the
/// error that names a slot held twice.
pub open spec fn ordering_result<M>(items: Seq<RuntimeMiddlewareDescriptor<M>>) -> Result<Seq<M>, Seq<char>> {
    let s = sorted_descriptors(items);
    match first_duplicate_slot(s) {
        Some(d) => Err("duplicate runtime middleware slot: "@ + slot_name(d)),
        None => Ok(s.map_values(|d: RuntimeMiddlewareDescriptor<M>| d.middleware)),
    }
}

proof fn lemma_desc_lt_asymmetric<M>(a: RuntimeMiddlewareDescriptor<M>, b: RuntimeMiddlewareDescriptor<M>)
    ensures
        desc_lt(a, b) ==> !desc_lt(b, a),
{
    lemma_lex_asymmetric(a.label@, b.label@);
}

proof fn lemma_desc_lt_transitive<M>(a: RuntimeMiddlewareDescriptor<M>, b: RuntimeMiddlewareDescriptor<M>, c: RuntimeMiddlewareDescriptor<M>)
    requires
        desc_lt(a, b),
        desc_lt(b, c),
    ensures
        desc_lt(a, c),
{
    if slot_rank(a.slot) == slot_rank(b.slot) && slot_rank(b.slot) == slot_rank(c.slot) {
        lemma_lex_transitive(a.label@, b.label@, c.label@);
    }
}

/// `!desc_lt` is transitive: it is the order "not after".
proof fn lemma_not_lt_transitive<M>(a: RuntimeMiddlewareDescriptor<M>, b: RuntimeMiddlewareDescriptor<M>, c: RuntimeMiddlewareDescriptor<M>)
    requires
        !desc_lt(b, a),
        !desc_lt(c, b),
    ensures
        !desc_lt(c, a),
{
    if desc_lt(c, a) {
        // Either a comes before b, or the two tie (same slot, same label).
        lemma_lex_total(a.label@, b.label@);
        if desc_lt(a, b) {
            lemma_desc_lt_transitive(c, a, b);
        }
    }
}

/// Inserting keeps the elements and adds `x`.
proof fn lemma_insert_multiset<M>(s: Seq<RuntimeMiddlewareDescriptor<M>>, x: RuntimeMiddlewareDescriptor<M>)
    ensures
        insert_sorted(s, x).to_multiset() == s.to_multiset().insert(x),
        insert_sorted(s, x).len() == s.len() + 1,
    decreases s.len(),
{
    broadcast use vstd::seq_lib::group_to_multiset_ensures;
    if s.len() == 0 {
        assert(seq![x] =~= Seq::<RuntimeMiddlewareDescriptor<M>>::empty().push(x));
    } else if desc_lt(x, s.last()) {
        lemma_insert_multiset(s.drop_last(), x);
        assert(s =~= s.drop_last().push(s.last()));
    }
}

/// Inserting into an ordered sequence keeps it ordered.
proof fn lemma_insert_ordered<M>(s: Seq<RuntimeMiddlewareDescriptor<M>>, x: RuntimeMiddlewareDescriptor<M>)
    requires
        is_ordered(s),
    ensures
        is_ordered(insert_sorted(s, x)),
        forall|k: int| 0 <= k < insert_sorted(s, x).len() ==> (#[trigger] insert_sorted(s, x)[k] == x || s.contains(insert_sorted(s, x)[k])),
    decreases s.len(),
{
    let r = insert_sorted(s, x);
    if s.len() == 0 {
    } else if desc_lt(x, s.last()) {
        let p = s.drop_last();
        assert(is_ordered(p));
        lemma_insert_ordered(p, x);
        let q = insert_sorted(p, x);
        lemma_insert_multiset(p, x);
        assert forall|k: int| 0 <= k < q.len() implies !desc_lt(s.last(), #[trigger] q[k]) by {
            if q[k] == x {
                lemma_desc_lt_asymmetric(x, s.last());
            } else {
                assert(p.contains(q[k]));
                let m = choose|m: int| 0 <= m < p.len() && p[m] == q[k];
                assert(s[m] == p[m]);
                assert(s[s.len() - 1] == s.last());
            }
        }
        assert forall|i: int, j: int| 0 <= i < j < r.len() implies !desc_lt(#[trigger] r[j], #[trigger] r[i]) by {
            if j < q.len() {
                assert(r[i] == q[i] && r[j] == q[j]);
            } else {
                assert(r[j] == s.last());
                assert(r[i] == q[i]);
            }
        }
        assert forall|k: int| 0 <= k < r.len() implies (#[trigger] r[k] == x || s.contains(r[k])) by {
            if k < q.len() {
                assert(r[k] == q[k]);
                if q[k] != x {
                    let m = choose|m: int| 0 <= m < p.len() && p[m] == q[k];
                    assert(s[m] == p[m]);
                }
            } else {
                assert(s[s.len() - 1] == r[k]);
            }
        }
    } else {
        assert forall|i: int, j: int| 0 <= i < j < r.len() implies !desc_lt(#[trigger] r[j], #[trigger] r[i]) by {
            if j == s.len() {
                assert(r[j] == x);
                assert(r[i] == s[i]);
                if i < s.len() - 1 {
                    assert(!desc_lt(s[s.len() - 1], s[i]));
                    lemma_not_lt_transitive(s[i], s[s.len() - 1], x);
                }
            } else {
                assert(r[i] == s[i] && r[j] == s[j]);
            }
        }
        assert forall|k: int| 0 <= k < r.len() implies (#[trigger] r[k] == x || s.contains(r[k])) by {
            if k < s.len() {
                assert(r[k] == s[k]);
            }
        }
    }
}

/// The sort orders the descriptors and keeps each of them, as often as it
/// occurs.
pub proof fn law_sorted_descriptors<M>(items: Seq<RuntimeMiddlewareDescriptor<M>>)
    ensures
        is_ordered(sorted_descriptors(items)),
        sorted_descriptors(items).to_multiset() == items.to_multiset(),
        sorted_descriptors(items).len() == items.len(),
    decreases items.len(),
{
    broadcast use vstd::seq_lib::group_to_multiset_ensures;
    if items.len() > 0 {
        let p = items.drop_last();
        law_sorted_descriptors(p);
        lemma_insert_ordered(sorted_descriptors(p), items.last());
        lemma_insert_multiset(sorted_descriptors(p), items.last());
        assert(items =~= p.push(items.last()));
    }
}

/// Where ordering succeeds, no slot but the user slot holds two
/// middlewares.
pub proof fn law_ordering_keeps_slots_unique<M>(items: Seq<RuntimeMiddlewareDescriptor<M>>)
    requires
        ordering_result(items) is Ok,
    ensures
        ({
            let s = sorted_descriptors(items);
            forall|i: int, j: int|
                0 <= i < j < s.len() && #[trigger] s[i].slot == #[trigger] s[j].slot ==> s[i].slot == RuntimeMiddlewareSlot::User
        }),
{
    law_sorted_descriptors(items);
    lemma_unique_slots(sorted_descriptors(items));
}

proof fn lemma_unique_slots<M>(s: Seq<RuntimeMiddlewareDescriptor<M>>)
    requires
        is_ordered(s),
        first_duplicate_slot(s) is None,
    ensures
        forall|i: int, j: int|
            0 <= i < j < s.len() && #[trigger] s[i].slot == #[trigger] s[j].slot ==> s[i].slot == RuntimeMiddlewareSlot::User,
{
    assert forall|i: int, j: int|
        0 <= i < j < s.len() && #[trigger] s[i].slot == #[trigger] s[j].slot implies s[i].slot == RuntimeMiddlewareSlot::User by {
        lemma_same_slot_next(s, i, j);
        lemma_no_adjacent_duplicate(s, i + 1);
    }
}

/// In an ordered sequence, two descriptors of one slot have only that slot
/// between them; in particular the next one has it.
proof fn lemma_same_slot_next<M>(s: Seq<RuntimeMiddlewareDescriptor<M>>, i: int, j: int)
    requires
        is_ordered(s),
        0 <= i < j < s.len(),
        s[i].slot == s[j].slot,
    ensures
        s[i + 1].slot == s[i].slot,
{
    assert(!desc_lt(s[i + 1], s[i]));
    if i + 1 < j {
        assert(!desc_lt(s[j], s[i + 1]));
    }
    assert(slot_rank(s[i + 1].slot) == slot_rank(s[i].slot));
}

/// Without a reported duplicate, the neighbours at `k - 1` and `k` share
/// no slot other than the user slot.
proof fn lemma_no_adjacent_duplicate<M>(s: Seq<RuntimeMiddlewareDescriptor<M>>, k: int)
    requires
        first_duplicate_slot(s) is None,
        0 < k < s.len(),
    ensures
        s[k].slot == s[k - 1].slot ==> s[k].slot == RuntimeMiddlewareSlot::User,
    decreases s.len(),
{
    if k < s.len() - 1 {
        lemma_no_adjacent_duplicate(s.drop_last(), k);
        assert(s.drop_last()[k] == s[k]);
        assert(s.drop_last()[k - 1] == s[k - 1]);
    }
}

/// Collects middlewares with their slots and labels.
#[derive(Debug)]
pub struct RuntimeMiddlewareAssembler<M> {
    items: Vec<RuntimeMiddlewareDescriptor<M>>,
}

impl<M> RuntimeMiddlewareAssembler<M> {
    /// The descriptors registered so far, in order.
    pub closed spec fn items(&self) -> Seq<RuntimeMiddlewareDescriptor<M>> {
        self.items@
    }

    pub fn new() -> (r: Self)
        ensures
            r.items() == Seq::<RuntimeMiddlewareDescriptor<M>>::empty(),
    {
        RuntimeMiddlewareAssembler { items: Vec::new() }
    }

    /// Registers a middleware in a slot.
    pub fn push(&mut self, slot: RuntimeMiddlewareSlot, label: &'static str, middleware: M)
        ensures
            final(self).items() == old(self).items().push(RuntimeMiddlewareDescriptor { slot, label, middleware }),
    {
        self.items.push(RuntimeMiddlewareDescriptor { slot, label, middleware });
    }

    /// Registers a user middleware (the user slot may hold several).
    pub fn push_user(&mut self, label: &'static str, middleware: M)
        ensures
            final(self).items() == old(self).items().push(
                RuntimeMiddlewareDescriptor { slot: RuntimeMiddlewareSlot::User, label, middleware },
            ),
    {
        self.push(RuntimeMiddlewareSlot::User, label, middleware);
    }

    /// The middlewares in order (see `sort_runtime_middlewares`).
    pub fn build(self) -> (r: Result<Vec<M>, String>)
        ensures
            r matches Ok(v) ==> ordering_result(self.items()) == Ok::<Seq<M>, Seq<char>>(v@),
            r matches Err(e) ==> ordering_result(self.items()) == Err::<Seq<M>, Seq<char>>(e@),
    {
        sort_runtime_middlewares(self.items)
    }
}

/// `a` comes strictly before `b` (checked).
fn descriptor_lt<M>(a: &RuntimeMiddlewareDescriptor<M>, b: &RuntimeMiddlewareDescriptor<M>) -> (r: bool)
    ensures
        r == desc_lt(*a, *b),
{
    let ra = a.slot.rank();
    let rb = b.slot.rank();
    ra < rb || (ra == rb && str_lt(a.label, b.label))
}

/// Where `insert_sorted` puts `x`: after the last element it does not
/// come before.
proof fn lemma_insert_at<M>(s: Seq<RuntimeMiddlewareDescriptor<M>>, x: RuntimeMiddlewareDescriptor<M>, j: int)
    requires
        0 <= j <= s.len(),
        forall|k: int| j <= k < s.len() ==> desc_lt(x, #[trigger] s[k]),
        j == 0 || !desc_lt(x, s[j - 1]),
    ensures
        insert_sorted(s, x) == s.insert(j, x),
    decreases s.len(),
{
    if s.len() == 0 {
        assert(s.insert(0, x) =~= seq![x]);
    } else if j == s.len() {
        assert(s.insert(j, x) =~= s.push(x));
    } else {
        assert(desc_lt(x, s[s.len() - 1]));
        let p = s.drop_last();
        assert forall|k: int| j <= k < p.len() implies desc_lt(x, #[trigger] p[k]) by {
            assert(p[k] == s[k]);
        }
        if j > 0 {
            assert(p[j - 1] == s[j - 1]);
        }
        lemma_insert_at(p, x, j);
        assert(p.insert(j, x).push(s.last()) =~= s.insert(j, x));
    }
}

/// Orders middlewares by slot, then label (a stable sort), and checks
/// that no slot but the user slot holds two.
pub fn sort_runtime_middlewares<M>(items: Vec<RuntimeMiddlewareDescriptor<M>>) -> (r: Result<Vec<M>, String>)
    ensures
        r matches Ok(v) ==> ordering_result(items@) == Ok::<Seq<M>, Seq<char>>(v@),
        r matches Err(e) ==> ordering_result(items@) == Err::<Seq<M>, Seq<char>>(e@),
{
    let ghost input = items@;
    let mut sorted: Vec<RuntimeMiddlewareDescriptor<M>> = Vec::new();
    let mut rest = items;
    assert(input.skip(0) =~= input);
    assert(input.len() == rest.len());
    let mut n: usize = 0;
    while rest.len() > 0
        invariant
            input.len() <= usize::MAX,
            n + rest.len() == input.len(),
            rest@ == input.skip(n as int),
            sorted@ == sorted_descriptors(input.take(n as int)),
        decreases rest.len(),
    {
        let x = rest.remove(0);
        proof {
            assert(rest@ =~= input.skip(n as int + 1));
            assert(input.take(n as int + 1).drop_last() =~= input.take(n as int));
            assert(input.take(n as int + 1).last() == x);
        }
        let mut j: usize = sorted.len();
        while j > 0 && descriptor_lt(&x, &sorted[j - 1])
            invariant
                j <= sorted.len(),
                forall|k: int| j <= k < sorted.len() ==> desc_lt(x, #[trigger] sorted@[k]),
            decreases j,
        {
            j = j - 1;
        }
        proof {
            lemma_insert_at(sorted@, x, j as int);
        }
        sorted.insert(j, x);
        n = n + 1;
    }
    assert(input.take(n as int) =~= input);
    let ghost s = sorted@;
    if sorted.len() > 1 {
        let mut k: usize = 1;
        assert(first_duplicate_slot(s.take(1)) is None);
        while k < sorted.len()
            invariant
                1 <= k <= sorted.len(),
                s == sorted@,
                s == sorted_descriptors(input),
                input == items@,
                first_duplicate_slot(s.take(k as int)) is None,
            decreases sorted.len() - k,
        {
            proof {
                let t = s.take(k as int + 1);
                assert(t.drop_last() =~= s.take(k as int));
                assert(t.last() == s[k as int]);
                assert(t[t.len() - 2] == s[k - 1]);
            }
            let cur = sorted[k].slot;
            if cur == sorted[k - 1].slot && cur != RuntimeMiddlewareSlot::User {
                proof {
                    assert(first_duplicate_slot(s.take(k as int + 1)) == Some(cur));
                    lemma_duplicate_prefix(s, k as int + 1);
                }
                let mut e = owned("duplicate runtime middleware slot: ");
                let name = cur.name();
                push_str(&mut e, name.as_str());
                return Err(e);
            }
            k = k + 1;
        }
        assert(s.take(s.len() as int) =~= s);
    }
    let mut out: Vec<M> = Vec::new();
    let mut src = sorted;
    assert(s.skip(0) =~= s);
    let mut m: usize = 0;
    while src.len() > 0
        invariant
            s.len() <= usize::MAX,
            m + src.len() == s.len(),
            src@ == s.skip(m as int),
            out@ == s.take(m as int).map_values(|d: RuntimeMiddlewareDescriptor<M>| d.middleware),
        decreases src.len(),
    {
        let d = src.remove(0);
        proof {
            assert(src@ =~= s.skip(m as int + 1));
            assert(d == s[m as int]);
        }
        out.push(d.middleware);
        proof {
            assert(s.take(m as int + 1).map_values(|d: RuntimeMiddlewareDescriptor<M>| d.middleware) =~= s.take(m as int).map_values(
                |d: RuntimeMiddlewareDescriptor<M>| d.middleware,
            ).push(s[m as int].middleware));
        }
        m = m + 1;
    }
    assert(s.take(m as int) =~= s);
    Ok(out)
}

/// A duplicate within a prefix is the first duplicate of the whole.
proof fn lemma_duplicate_prefix<M>(s: Seq<RuntimeMiddlewareDescriptor<M>>, n: int)
    requires
        2 <= n <= s.len(),
        first_duplicate_slot(s.take(n)) is Some,
    ensures
        first_duplicate_slot(s) == first_duplicate_slot(s.take(n)),
    decreases s.len(),
{
    if n < s.len() {
        assert(s.drop_last().take(n) =~= s.take(n));
        lemma_duplicate_prefix(s.drop_last(), n);
    } else {
        assert(s.take(n) =~= s);
    }
}

} // verus!
