//! A key-value cache with a time to live and a bounded number of entries,
//! evicting the least recently used entry first.
use vstd::prelude::*;

use crate::text::str_eq;

verus! {

/// What an insertion did.
#[derive(Debug, Clone, Copy)]
pub struct CacheInsertResult {
    /// The key was not in the cache before.
    pub inserted: bool,
    /// Number of entries dropped to make room.
    pub evicted: u64,
}

/// What a lookup found.
#[derive(Debug)]
pub struct CacheLookupResult<V> {
    pub value: Option<V>,
    /// The key was there but its time had run out; it is gone now.
    pub expired: bool,
}

/// One cached value.
pub struct CacheSlot<V> {
    pub key: String,
    pub value: V,
    /// The first instant at which the value no longer counts.
    pub expires_at: u64,
}

/// A slot as values.
pub struct SlotView<V> {
    pub key: Seq<char>,
    pub value: V,
    pub expires_at: u64,
}

/// The cache state. Slots are kept from the least to the most recently
/// used; times are counted in the same unit as `ttl`, from any fixed origin.
pub struct MemoryCacheStore<V> {
    slots: Vec<CacheSlot<V>>,
    ttl: u64,
    max_entries: usize,
}

pub open spec fn slot_view<V>(s: CacheSlot<V>) -> SlotView<V> {
    SlotView { key: s.key@, value: s.value, expires_at: s.expires_at }
}

/// No two slots share a key.
pub open spec fn keys_distinct<V>(s: Seq<SlotView<V>>) -> bool {
    forall|i: int, j: int| 0 <= i < s.len() && 0 <= j < s.len() && i != j ==> #[trigger] s[i].key != #[trigger] s[j].key
}

/// Position of `key` among the slots, if it is there.
pub open spec fn position_of<V>(s: Seq<SlotView<V>>, key: Seq<char>) -> Option<int> {
    if exists|i: int| 0 <= i < s.len() && #[trigger] s[i].key == key {
        Some(choose|i: int| 0 <= i < s.len() && #[trigger] s[i].key == key)
    } else {
        None
    }
}

/// The slots after a value is stored under `key` at time `now`: the old
/// slot of the key goes, the new one comes last, and the oldest slots go
/// while more than `max` remain.
pub open spec fn after_insert<V>(s: Seq<SlotView<V>>, key: Seq<char>, value: V, expires_at: u64, max: nat) -> Seq<SlotView<V>> {
    let base = match position_of(s, key) {
        Some(i) => s.remove(i),
        None => s,
    };
    let pushed = base.push(SlotView { key, value, expires_at });
    if pushed.len() > max {
        pushed.skip(pushed.len() - max)
    } else {
        pushed
    }
}

impl<V> MemoryCacheStore<V> {
    /// The slots, least recently used first.
    pub closed spec fn slots(&self) -> Seq<SlotView<V>> {
        self.slots@.map_values(|s: CacheSlot<V>| slot_view(s))
    }

    pub closed spec fn ttl(&self) -> u64 {
        self.ttl
    }

    pub closed spec fn max_entries(&self) -> nat {
        self.max_entries as nat
    }

    #[verifier::type_invariant]
    closed spec fn wf(&self) -> bool {
        &&& self.max_entries >= 1
        &&& self.slots@.len() <= self.max_entries
        &&& keys_distinct(self.slots())
    }

    /// An empty cache; a capacity of 0 is taken as 1.
    pub fn new(ttl: u64, max_entries: usize) -> (r: Self)
        ensures
            r.slots() == Seq::<SlotView<V>>::empty(),
            r.ttl() == ttl,
            r.max_entries() == if max_entries == 0 { 1 } else { max_entries },
    {
        let r = MemoryCacheStore { slots: Vec::new(), ttl, max_entries: if max_entries == 0 { 1 } else { max_entries } };
        assert(r.slots() =~= Seq::<SlotView<V>>::empty());
        r
    }

    /// Number of entries held.
    pub fn len(&self) -> (r: usize)
        ensures
            r == self.slots().len(),
    {
        self.slots.len()
    }

    fn find(&self, key: &str) -> (r: Option<usize>)
        ensures
            r == match position_of(self.slots(), key@) {
                Some(i) => Some(i as usize),
                None => None::<usize>,
            },
            r matches Some(i) ==> i < self.slots().len(),
    {
        proof {
            use_type_invariant(self);
        }
        let ghost s = self.slots();
        let mut i: usize = 0;
        while i < self.slots.len()
            invariant
                i <= self.slots@.len(),
                s == self.slots(),
                keys_distinct(s),
                forall|k: int| 0 <= k < i ==> #[trigger] s[k].key != key@,
            decreases self.slots@.len() - i,
        {
            if str_eq(self.slots[i].key.as_str(), key) {
                assert(s[i as int].key == key@);
                assert(exists|k: int| 0 <= k < s.len() && #[trigger] s[k].key == key@);
                let ghost c = choose|k: int| 0 <= k < s.len() && #[trigger] s[k].key == key@;
                assert(c == i as int);
                return Some(i);
            }
            i = i + 1;
        }
        None
    }
}

impl<V: Clone> MemoryCacheStore<V> {
    /// Looks `key` up at time `now`. An entry whose time has come is removed
    /// and reported as expired; a live one becomes the most recently used.
    pub fn get(&mut self, key: &str, now: u64) -> (r: CacheLookupResult<V>)
        ensures
            final(self).ttl() == old(self).ttl(),
            final(self).max_entries() == old(self).max_entries(),
            final(self).slots().len() <= final(self).max_entries(),
            keys_distinct(final(self).slots()),
            match position_of(old(self).slots(), key@) {
                None => r.value is None && !r.expired && final(self).slots() == old(self).slots(),
                Some(i) => if now >= old(self).slots()[i].expires_at {
                    r.value is None && r.expired && final(self).slots() == old(self).slots().remove(i)
                } else {
                    &&& !r.expired
                    &&& r.value matches Some(v) && cloned(old(self).slots()[i].value, v)
                    &&& final(self).slots() == old(self).slots().remove(i).push(old(self).slots()[i])
                },
            },
            r.value is None ==> position_of(final(self).slots(), key@) is None,
    {
        proof {
            use_type_invariant(&*self);
        }
        let ghost s = self.slots();
        match self.find(key) {
            None => CacheLookupResult { value: None, expired: false },
            Some(i) => {
                let mut slots: Vec<CacheSlot<V>> = Vec::new();
                std::mem::swap(&mut slots, &mut self.slots);
                let slot = slots.remove(i);
                assert(slots@.map_values(|s: CacheSlot<V>| slot_view(s)) =~= s.remove(i as int));
                if now >= slot.expires_at {
                    self.slots = slots;
                    proof {
                        lemma_remove_keeps_distinct(s, i as int);
                        let r = s.remove(i as int);
                        assert forall|j: int| 0 <= j < r.len() implies #[trigger] r[j].key != key@ by {
                            if j < i {
                                assert(r[j] == s[j]);
                            } else {
                                assert(r[j] == s[j + 1]);
                            }
                        }
                    }
                    CacheLookupResult { value: None, expired: true }
                } else {
                    let value = slot.value.clone();
                    let ghost sv = slot_view(slot);
                    slots.push(slot);
                    assert(slots@.map_values(|s: CacheSlot<V>| slot_view(s)) =~= s.remove(i as int).push(sv));
                    proof {
                        lemma_move_last_keeps_distinct(s, i as int);
                    }
                    self.slots = slots;
                    CacheLookupResult { value: Some(value), expired: false }
                }
            },
        }
    }

    /// Stores `value` under `key` at time `now`, to expire `ttl` later (at
    /// the last representable instant when that overflows). The least
    /// recently used entries go while the cache is over capacity.
    pub fn insert(&mut self, key: String, value: V, now: u64) -> (r: CacheInsertResult)
        ensures
            final(self).ttl() == old(self).ttl(),
            final(self).max_entries() == old(self).max_entries(),
            final(self).slots().len() <= final(self).max_entries(),
            keys_distinct(final(self).slots()),
            r.inserted == (position_of(old(self).slots(), key@) is None),
            final(self).slots() == after_insert(
                old(self).slots(),
                key@,
                value,
                if now + old(self).ttl() > u64::MAX { u64::MAX } else { (now + old(self).ttl()) as u64 },
                old(self).max_entries(),
            ),
            r.evicted + final(self).slots().len() == (if r.inserted { old(self).slots().len() + 1 } else { old(self).slots().len() + 0 }),
            final(self).slots().len() > 0 && final(self).slots().last().key == key@,
    {
        proof {
            use_type_invariant(&*self);
        }
        let ghost s = self.slots();
        let expires_at = now.saturating_add(self.ttl);
        let found = self.find(key.as_str());
        let mut slots: Vec<CacheSlot<V>> = Vec::new();
        std::mem::swap(&mut slots, &mut self.slots);
        let inserted = match found {
            Some(i) => {
                let _old = slots.remove(i);
                proof {
                    lemma_remove_keeps_distinct(s, i as int);
                }
                false
            },
            None => true,
        };
        let ghost base = slots@.map_values(|s: CacheSlot<V>| slot_view(s));
        assert(base =~= match position_of(s, key@) {
            Some(i) => s.remove(i),
            None => s,
        });
        let ghost new_slot = SlotView { key: key@, value, expires_at };
        slots.push(CacheSlot { key, value, expires_at });
        let ghost pushed = base.push(new_slot);
        assert(slots@.map_values(|s: CacheSlot<V>| slot_view(s)) =~= pushed);
        proof {
            lemma_push_new_keeps_distinct(base, new_slot);
        }
        let mut evicted: u64 = 0;
        if slots.len() > self.max_entries {
            let _gone = slots.remove(0);
            evicted = 1;
            assert(slots@.map_values(|s: CacheSlot<V>| slot_view(s)) =~= pushed.skip(1));
            proof {
                lemma_skip_keeps_distinct(pushed, 1);
            }
        }
        self.slots = slots;
        assert(self.slots().last().key == key@);
        CacheInsertResult { inserted, evicted }
    }
}

proof fn lemma_remove_keeps_distinct<V>(s: Seq<SlotView<V>>, i: int)
    requires
        keys_distinct(s),
        0 <= i < s.len(),
    ensures
        keys_distinct(s.remove(i)),
        forall|k: int| 0 <= k < s.remove(i).len() ==> #[trigger] s.remove(i)[k].key != s[i].key,
{
    let t = s.remove(i);
    assert forall|a: int, b: int| 0 <= a < t.len() && 0 <= b < t.len() && a != b implies #[trigger] t[a].key != #[trigger] t[b].key by {
        let a2 = if a < i { a } else { a + 1 };
        let b2 = if b < i { b } else { b + 1 };
        assert(t[a] == s[a2] && t[b] == s[b2]);
    }
    assert forall|k: int| 0 <= k < t.len() implies #[trigger] t[k].key != s[i].key by {
        let k2 = if k < i { k } else { k + 1 };
        assert(t[k] == s[k2]);
    }
}

proof fn lemma_push_new_keeps_distinct<V>(s: Seq<SlotView<V>>, e: SlotView<V>)
    requires
        keys_distinct(s),
        forall|k: int| 0 <= k < s.len() ==> #[trigger] s[k].key != e.key,
    ensures
        keys_distinct(s.push(e)),
{
    let t = s.push(e);
    assert forall|a: int, b: int| 0 <= a < t.len() && 0 <= b < t.len() && a != b implies #[trigger] t[a].key != #[trigger] t[b].key by {
        if a < s.len() && b < s.len() {
            assert(t[a] == s[a] && t[b] == s[b]);
        } else if a < s.len() {
            assert(t[a] == s[a]);
        } else if b < s.len() {
            assert(t[b] == s[b]);
        }
    }
}

proof fn lemma_move_last_keeps_distinct<V>(s: Seq<SlotView<V>>, i: int)
    requires
        keys_distinct(s),
        0 <= i < s.len(),
    ensures
        keys_distinct(s.remove(i).push(s[i])),
{
    lemma_remove_keeps_distinct(s, i);
    lemma_push_new_keeps_distinct(s.remove(i), s[i]);
}

proof fn lemma_skip_keeps_distinct<V>(s: Seq<SlotView<V>>, n: int)
    requires
        keys_distinct(s),
        0 <= n <= s.len(),
    ensures
        keys_distinct(s.skip(n)),
{
    let t = s.skip(n);
    assert forall|a: int, b: int| 0 <= a < t.len() && 0 <= b < t.len() && a != b implies #[trigger] t[a].key != #[trigger] t[b].key by {
        assert(t[a] == s[a + n] && t[b] == s[b + n]);
    }
}

/// A value just stored is what a lookup of its key finds, with the expiry
/// it was stored with.
pub proof fn law_insert_then_lookup<V>(s: Seq<SlotView<V>>, key: Seq<char>, value: V, expires_at: u64, max: nat)
    requires
        keys_distinct(s),
        s.len() <= max,
        max >= 1,
    ensures
        ({
            let t = after_insert(s, key, value, expires_at, max);
            &&& t.len() <= max
            &&& keys_distinct(t)
            &&& position_of(t, key) matches Some(i) && t[i].value == value && t[i].expires_at == expires_at
        }),
{
    let base = match position_of(s, key) {
        Some(i) => s.remove(i),
        None => s,
    };
    match position_of(s, key) {
        Some(i) => {
            lemma_remove_keeps_distinct(s, i);
        },
        None => {},
    }
    assert forall|k: int| 0 <= k < base.len() implies #[trigger] base[k].key != key by {
        match position_of(s, key) {
            Some(i) => {
                assert(s[i].key == key);
            },
            None => {
                assert(base[k] == s[k]);
            },
        }
    }
    let e = SlotView { key, value, expires_at };
    let pushed = base.push(e);
    lemma_push_new_keeps_distinct(base, e);
    let t = after_insert(s, key, value, expires_at, max);
    if pushed.len() > max {
        lemma_skip_keeps_distinct(pushed, pushed.len() - max);
    }
    assert(t.len() > 0 && t[t.len() - 1] == e);
    assert(t[t.len() - 1].key == key);
    let c = choose|i: int| 0 <= i < t.len() && #[trigger] t[i].key == key;
    assert(c == t.len() - 1);
}

} // verus!
