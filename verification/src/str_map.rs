//! An ordered map from strings, kept as a vector of pairs with strictly
//! increasing keys.
use vstd::prelude::*;

use crate::string_set::strictly_sorted;
use crate::text::{lex_lt, lemma_lex_irreflexive, lemma_lex_total, lemma_lex_transitive, str_eq, str_lt};

verus! {

/// A map from strings, iterated in lexicographic key order.
#[derive(Debug)]
pub struct StrMap<V> {
    entries: Vec<(String, V)>,
}

pub open spec fn pair_keys<V>(s: Seq<(String, V)>) -> Seq<Seq<char>> {
    s.map_values(|e: (String, V)| e.0@)
}

/// The index of key `k` in a sequence of distinct keys.
pub open spec fn key_pos(ks: Seq<Seq<char>>, k: Seq<char>) -> int {
    choose|i: int| 0 <= i < ks.len() && ks[i] == k
}

proof fn lemma_key_pos(ks: Seq<Seq<char>>, i: int)
    requires
        strictly_sorted(ks),
        0 <= i < ks.len(),
    ensures
        key_pos(ks, ks[i]) == i,
{
    let k = ks[i];
    let j = key_pos(ks, k);
    assert(0 <= j < ks.len() && ks[j] == k);
    if j < i {
        assert(lex_lt(ks[j], ks[i]));
        lemma_lex_irreflexive(k);
    } else if j > i {
        assert(lex_lt(ks[i], ks[j]));
        lemma_lex_irreflexive(k);
    }
}

impl<V> StrMap<V> {
    #[verifier::type_invariant]
    spec fn inv(&self) -> bool {
        strictly_sorted(pair_keys(self.entries@))
    }

    /// The keys in increasing order.
    pub closed spec fn keys(&self) -> Seq<Seq<char>> {
        pair_keys(self.entries@)
    }

    /// The values in the order of their keys.
    pub closed spec fn values(&self) -> Seq<V> {
        self.entries@.map_values(|e: (String, V)| e.1)
    }

    /// The map.
    pub open spec fn map(&self) -> Map<Seq<char>, V> {
        Map::new(|k: Seq<char>| self.keys().contains(k), |k: Seq<char>| self.values()[key_pos(self.keys(), k)])
    }

    /// An empty map.
    pub fn new() -> (r: Self)
        ensures
            r.keys() == Seq::<Seq<char>>::empty(),
            r.map() == Map::<Seq<char>, V>::empty(),
    {
        let r = StrMap { entries: Vec::new() };
        assert(r.keys() =~= Seq::<Seq<char>>::empty());
        assert(r.map() =~= Map::<Seq<char>, V>::empty());
        r
    }
}

impl<V> StrMap<V> {
    /// Number of entries.
    pub fn len(&self) -> (r: usize)
        ensures
            r == self.keys().len(),
            r == self.map().dom().len(),
    {
        proof {
            use_type_invariant(self);
            lemma_dom_len(self.keys());
            assert(self.map().dom() =~= self.keys().to_set());
        }
        self.entries.len()
    }

    /// Whether the map is empty.
    pub fn is_empty(&self) -> (r: bool)
        ensures
            r == (self.map().dom().len() == 0),
            r == (self.keys().len() == 0),
    {
        self.len() == 0
    }

    /// The position of `key`, if it is a key.
    fn find(&self, key: &str) -> (r: Option<usize>)
        ensures
            r is Some <==> self.keys().contains(key@),
            r matches Some(i) ==> i < self.keys().len() && self.keys()[i as int] == key@ && key_pos(self.keys(), key@) == i,
    {
        proof {
            use_type_invariant(self);
        }
        let mut i: usize = 0;
        while i < self.entries.len()
            invariant
                i <= self.entries.len(),
                strictly_sorted(self.keys()),
                forall|k: int| 0 <= k < i ==> self.keys()[k] != key@,
            decreases self.entries.len() - i,
        {
            if str_eq(self.entries[i].0.as_str(), key) {
                proof {
                    lemma_key_pos(self.keys(), i as int);
                }
                return Some(i);
            }
            i = i + 1;
        }
        None
    }

    /// Whether `key` is a key.
    pub fn contains_key(&self, key: &str) -> (r: bool)
        ensures
            r == self.map().dom().contains(key@),
    {
        self.find(key).is_some()
    }

    /// The value under `key`.
    pub fn get(&self, key: &str) -> (r: Option<&V>)
        ensures
            r is Some <==> self.map().dom().contains(key@),
            r matches Some(v) ==> *v == self.map()[key@],
    {
        match self.find(key) {
            Some(i) => Some(&self.entries[i].1),
            None => None,
        }
    }

    /// The keys, in increasing order.
    pub fn key_list(&self) -> (r: Vec<String>)
        ensures
            r@.map_values(|s: String| s@) == self.keys(),
    {
        let mut out: Vec<String> = Vec::new();
        let mut i: usize = 0;
        while i < self.entries.len()
            invariant
                i <= self.entries.len(),
                out.len() == i,
                forall|k: int| 0 <= k < i ==> #[trigger] out@[k]@ == self.keys()[k],
            decreases self.entries.len() - i,
        {
            out.push(self.entries[i].0.clone());
            i = i + 1;
        }
        assert(out@.map_values(|s: String| s@) =~= self.keys());
        out
    }

    /// The entry at position `i` in key order.
    pub fn entry_at(&self, i: usize) -> (r: (&String, &V))
        requires
            i < self.keys().len(),
        ensures
            r.0@ == self.keys()[i as int],
            *r.1 == self.values()[i as int],
            *r.1 == self.map()[self.keys()[i as int]],
            self.map().dom().contains(self.keys()[i as int]),
            forall|j: int| 0 <= j < self.keys().len() && j != i ==> self.keys()[j] != self.keys()[i as int],
    {
        proof {
            use_type_invariant(self);
            lemma_key_pos(self.keys(), i as int);
            let ks = self.keys();
            assert forall|j: int| 0 <= j < ks.len() && j != i implies ks[j] != ks[i as int] by {
                if j < i {
                    assert(lex_lt(ks[j], ks[i as int]));
                } else {
                    assert(lex_lt(ks[i as int], ks[j]));
                }
                lemma_lex_irreflexive(ks[j]);
            }
        }
        (&self.entries[i].0, &self.entries[i].1)
    }

    /// Stores `value` under `key`, replacing what was there.
    pub fn insert(&mut self, key: String, value: V)
        ensures
            final(self).map() == old(self).map().insert(key@, value),
    {
        proof {
            use_type_invariant(&*self);
        }
        let ghost ok = self.keys();
        let ghost ov = self.values();
        let ghost om = self.map();
        let mut i: usize = 0;
        while i < self.entries.len() && str_lt(self.entries[i].0.as_str(), key.as_str())
            invariant
                i <= self.entries.len(),
                ok == pair_keys(self.entries@),
                forall|k: int| 0 <= k < i ==> lex_lt(#[trigger] ok[k], key@),
            decreases self.entries.len() - i,
        {
            i = i + 1;
        }
        let ghost kv = key@;
        let mut entries: Vec<(String, V)> = Vec::new();
        std::mem::swap(&mut entries, &mut self.entries);
        if i < entries.len() && str_eq(entries[i].0.as_str(), key.as_str()) {
            let _old = entries.remove(i);
            entries.insert(i, (key, value));
            proof {
                let nk = pair_keys(entries@);
                assert(nk =~= ok);
                let nv = entries@.map_values(|e: (String, V)| e.1);
                assert(nv =~= ov.update(i as int, value));
                lemma_key_pos(ok, i as int);
                assert forall|k: Seq<char>| #[trigger] nk.contains(k) implies
                    nv[key_pos(nk, k)] == om.insert(kv, value)[k] by {
                    let j = choose|j: int| 0 <= j < nk.len() && nk[j] == k;
                    lemma_key_pos(ok, j);
                }
                assert(ok.contains(kv));
            }
            self.entries = entries;
            proof {
                assert(self.map() =~= om.insert(kv, value));
            }
        } else {
            proof {
                if i < ok.len() {
                    lemma_lex_total(ok[i as int], kv);
                }
                assert forall|k: int| 0 <= k < ok.len() implies ok[k] != kv by {
                    if k < i {
                        lemma_lex_irreflexive(kv);
                    } else {
                        if k > i {
                            assert(lex_lt(ok[i as int], ok[k]));
                            lemma_lex_transitive(kv, ok[i as int], ok[k]);
                        }
                        lemma_lex_irreflexive(kv);
                    }
                }
            }
            entries.insert(i, (key, value));
            proof {
                let nk = pair_keys(entries@);
                assert(nk =~= ok.insert(i as int, kv));
                let nv = entries@.map_values(|e: (String, V)| e.1);
                assert(nv =~= ov.insert(i as int, value));
                assert forall|a: int, b: int| 0 <= a < b < nk.len() implies lex_lt(#[trigger] nk[a], #[trigger] nk[b]) by {
                    if a < i && b < i {
                    } else if a < i && b == i {
                    } else if a < i && b > i {
                        assert(nk[b] == ok[b - 1]);
                    } else if a == i {
                        assert(nk[b] == ok[b - 1]);
                        if b - 1 > i {
                            assert(lex_lt(ok[i as int], ok[b - 1]));
                            lemma_lex_transitive(kv, ok[i as int], ok[b - 1]);
                        }
                    } else {
                        assert(nk[a] == ok[a - 1]);
                        assert(nk[b] == ok[b - 1]);
                    }
                }
                assert forall|k: Seq<char>| #[trigger] nk.contains(k) == om.insert(kv, value).dom().contains(k) by {
                    if nk.contains(k) {
                        let j = choose|j: int| 0 <= j < nk.len() && nk[j] == k;
                        if j < i {
                            assert(ok[j] == k);
                        } else if j > i {
                            assert(ok[j - 1] == k);
                        }
                    }
                    if om.insert(kv, value).dom().contains(k) {
                        if k == kv {
                            assert(nk[i as int] == kv);
                        } else {
                            let j = choose|j: int| 0 <= j < ok.len() && ok[j] == k;
                            if j < i {
                                assert(nk[j] == k);
                            } else {
                                assert(nk[j + 1] == k);
                            }
                        }
                    }
                }
                assert forall|k: Seq<char>| #[trigger] nk.contains(k) implies
                    nv[key_pos(nk, k)] == om.insert(kv, value)[k] by {
                    let j = choose|j: int| 0 <= j < nk.len() && nk[j] == k;
                    lemma_key_pos(nk, j);
                    if j < i {
                        lemma_key_pos(ok, j);
                    } else if j > i {
                        lemma_key_pos(ok, j - 1);
                    }
                }
            }
            self.entries = entries;
            proof {
                assert(self.map() =~= om.insert(kv, value));
            }
        }
    }

    /// Removes `key` and returns its value.
    pub fn remove(&mut self, key: &str) -> (r: Option<V>)
        ensures
            final(self).map() == old(self).map().remove(key@),
            r is Some <==> old(self).map().dom().contains(key@),
            r matches Some(v) ==> v == old(self).map()[key@],
    {
        proof {
            use_type_invariant(&*self);
        }
        let ghost ok = self.keys();
        let ghost ov = self.values();
        let ghost om = self.map();
        match self.find(key) {
            None => {
                assert(om.remove(key@) =~= om);
                None
            },
            Some(i) => {
                let mut entries: Vec<(String, V)> = Vec::new();
                std::mem::swap(&mut entries, &mut self.entries);
                let (_k, v) = entries.remove(i);
                proof {
                    let nk = pair_keys(entries@);
                    assert(nk =~= ok.remove(i as int));
                    let nv = entries@.map_values(|e: (String, V)| e.1);
                    assert(nv =~= ov.remove(i as int));
                    assert forall|a: int, b: int| 0 <= a < b < nk.len() implies lex_lt(#[trigger] nk[a], #[trigger] nk[b]) by {
                        let a2 = if a < i { a } else { a + 1 };
                        let b2 = if b < i { b } else { b + 1 };
                        assert(nk[a] == ok[a2] && nk[b] == ok[b2]);
                    }
                    assert forall|k: Seq<char>| #[trigger] nk.contains(k) == om.remove(key@).dom().contains(k) by {
                        if nk.contains(k) {
                            let j = choose|j: int| 0 <= j < nk.len() && nk[j] == k;
                            let j2 = if j < i { j } else { j + 1 };
                            assert(ok[j2] == k);
                            if k == key@ {
                                lemma_key_pos(ok, j2);
                            }
                        }
                        if om.remove(key@).dom().contains(k) {
                            let j = choose|j: int| 0 <= j < ok.len() && ok[j] == k;
                            if j < i {
                                assert(nk[j] == k);
                            } else {
                                assert(j != i);
                                assert(nk[j - 1] == k);
                            }
                        }
                    }
                    assert forall|k: Seq<char>| #[trigger] nk.contains(k) implies
                        nv[key_pos(nk, k)] == om.remove(key@)[k] by {
                        let j = choose|j: int| 0 <= j < nk.len() && nk[j] == k;
                        lemma_key_pos(nk, j);
                        let j2 = if j < i { j } else { j + 1 };
                        lemma_key_pos(ok, j2);
                    }
                }
                self.entries = entries;
                proof {
                    assert(self.map() =~= om.remove(key@));
                }
                Some(v)
            },
        }
    }
}

proof fn lemma_dom_len(ks: Seq<Seq<char>>)
    requires
        strictly_sorted(ks),
    ensures
        ks.to_set().len() == ks.len(),
{
    assert(ks.no_duplicates()) by {
        assert forall|i: int, j: int| 0 <= i < ks.len() && 0 <= j < ks.len() && i != j implies ks[i] != ks[j] by {
            if i < j {
                assert(lex_lt(ks[i], ks[j]));
            } else {
                assert(lex_lt(ks[j], ks[i]));
            }
            lemma_lex_irreflexive(ks[i]);
        }
    }
    ks.unique_seq_to_set();
}

impl<V: Clone> Clone for StrMap<V> {
    fn clone(&self) -> (r: Self)
        ensures
            r.keys() == self.keys(),
            r.values().len() == self.values().len(),
            forall|i: int| 0 <= i < self.values().len() ==> cloned(self.values()[i], #[trigger] r.values()[i]),
    {
        proof {
            use_type_invariant(self);
        }
        let mut entries: Vec<(String, V)> = Vec::new();
        let mut i: usize = 0;
        while i < self.entries.len()
            invariant
                i <= self.entries.len(),
                entries.len() == i,
                forall|k: int| 0 <= k < i ==> #[trigger] entries@[k].0@ == self.entries@[k].0@,
                forall|k: int| 0 <= k < i ==> cloned(self.entries@[k].1, #[trigger] entries@[k].1),
                strictly_sorted(pair_keys(self.entries@)),
            decreases self.entries.len() - i,
        {
            let e = &self.entries[i];
            entries.push((e.0.clone(), e.1.clone()));
            i = i + 1;
        }
        assert(pair_keys(entries@) =~= pair_keys(self.entries@));
        let r = StrMap { entries };
        assert forall|k: int| 0 <= k < self.values().len() implies cloned(self.values()[k], #[trigger] r.values()[k]) by {
            assert(r.values()[k] == entries@[k].1);
        }
        r
    }
}

/// Two maps whose keys agree and whose values are equal position by
/// position are the same map.
pub proof fn lemma_same_map<V>(a: &StrMap<V>, b: &StrMap<V>)
    requires
        a.keys() == b.keys(),
        a.values() == b.values(),
    ensures
        a.map() == b.map(),
{
    assert(a.map() =~= b.map());
}

} // verus!
