//! An ordered set of strings, kept as a strictly increasing vector.
use vstd::prelude::*;

use crate::text::{lex_lt, lemma_lex_irreflexive, lemma_lex_total, lemma_lex_transitive, str_eq, str_lt};

verus! {

/// A set of strings iterated in lexicographic order.
#[derive(Debug, PartialEq, Eq)]
pub struct StringSet {
    items: Vec<String>,
}

/// The elements of the vector are strictly increasing.
pub open spec fn strictly_sorted(s: Seq<Seq<char>>) -> bool {
    forall|i: int, j: int| 0 <= i < j < s.len() ==> lex_lt(#[trigger] s[i], #[trigger] s[j])
}

pub open spec fn string_views(v: Seq<String>) -> Seq<Seq<char>> {
    v.map_values(|s: String| s@)
}

impl Clone for StringSet {
    fn clone(&self) -> (r: Self)
        ensures
            r.elems() == self.elems(),
    {
        proof {
            use_type_invariant(self);
        }
        let items = self.items.clone();
        assert(string_views(items@) =~= string_views(self.items@));
        StringSet { items }
    }
}

impl StringSet {
    #[verifier::type_invariant]
    spec fn inv(&self) -> bool {
        strictly_sorted(string_views(self.items@))
    }

    /// The elements in increasing order.
    pub closed spec fn elems(&self) -> Seq<Seq<char>> {
        string_views(self.items@)
    }

    /// The set of elements.
    pub open spec fn view_set(&self) -> Set<Seq<char>> {
        self.elems().to_set()
    }

    /// Creates an empty set.
    pub fn new() -> (r: Self)
        ensures
            r.elems() == Seq::<Seq<char>>::empty(),
    {
        let r = StringSet { items: Vec::new() };
        assert(string_views(r.items@) =~= Seq::<Seq<char>>::empty());
        r
    }

    /// Number of elements.
    pub fn len(&self) -> (r: usize)
        ensures
            r == self.elems().len(),
    {
        self.items.len()
    }

    /// Whether the set is empty.
    pub fn is_empty(&self) -> (r: bool)
        ensures
            r == (self.elems().len() == 0),
    {
        self.items.len() == 0
    }

    /// The elements as a slice, in increasing order.
    pub fn as_slice(&self) -> (r: &[String])
        ensures
            string_views(r@) == self.elems(),
    {
        self.items.as_slice()
    }

    /// Iterates the elements in increasing order.
    pub fn iter(&self) -> (r: std::slice::Iter<'_, String>) {
        self.items.iter()
    }

    /// Whether `s` is an element.
    pub fn contains(&self, s: &str) -> (r: bool)
        ensures
            r == self.elems().contains(s@),
    {
        let mut i: usize = 0;
        while i < self.items.len()
            invariant
                i <= self.items.len(),
                forall|k: int| 0 <= k < i ==> self.items@[k]@ != s@,
            decreases self.items.len() - i,
        {
            if str_eq(self.items[i].as_str(), s) {
                assert(self.elems()[i as int] == s@);
                return true;
            }
            i = i + 1;
        }
        assert forall|k: int| 0 <= k < self.elems().len() implies self.elems()[k] != s@ by {
            assert(self.elems()[k] == self.items@[k]@);
        }
        false
    }

    /// Inserts `s`; returns whether it was absent.
    pub fn insert(&mut self, s: String) -> (r: bool)
        ensures
            r == !old(self).elems().contains(s@),
            final(self).view_set() == old(self).view_set().insert(s@),
            old(self).elems().contains(s@) ==> final(self).elems() == old(self).elems(),
            old(self).elems().len() == 0 ==> final(self).elems() == seq![s@],
    {
        proof {
            use_type_invariant(&*self);
        }
        let ghost old_elems = self.elems();
        let mut i: usize = 0;
        while i < self.items.len() && str_lt(self.items[i].as_str(), s.as_str())
            invariant
                i <= self.items.len(),
                old_elems == string_views(self.items@),
                forall|k: int| 0 <= k < i ==> lex_lt(#[trigger] old_elems[k], s@),
            decreases self.items.len() - i,
        {
            i = i + 1;
        }
        if i < self.items.len() && str_eq(self.items[i].as_str(), s.as_str()) {
            assert(old_elems[i as int] == s@);
            assert(old_elems.contains(s@));
            assert(old_elems.to_set().insert(s@) =~= old_elems.to_set());
            return false;
        }
        proof {
            if i < old_elems.len() {
                lemma_lex_total(old_elems[i as int], s@);
                assert(!lex_lt(old_elems[i as int], s@));
                assert(lex_lt(s@, old_elems[i as int]));
            }
            assert forall|k: int| 0 <= k < old_elems.len() implies old_elems[k] != s@ by {
                if k < i {
                    lemma_lex_irreflexive(s@);
                } else {
                    if k > i {
                        assert(lex_lt(old_elems[i as int], old_elems[k]));
                        lemma_lex_transitive(s@, old_elems[i as int], old_elems[k]);
                    }
                    lemma_lex_irreflexive(s@);
                }
            }
        }
        let ghost sv = s@;
        let mut items: Vec<String> = Vec::new();
        std::mem::swap(&mut items, &mut self.items);
        items.insert(i, s);
        proof {
            let ne = string_views(items@);
            assert(ne =~= old_elems.insert(i as int, sv));
            if old_elems.len() == 0 {
                assert(ne =~= seq![sv]);
            }
            assert forall|a: int, b: int| 0 <= a < b < ne.len() implies lex_lt(
                #[trigger] ne[a],
                #[trigger] ne[b],
            ) by {
                if a < i && b < i {
                } else if a < i && b == i {
                } else if a < i && b > i {
                    assert(ne[b] == old_elems[b - 1]);
                } else if a == i {
                    assert(ne[b] == old_elems[b - 1]);
                    if b - 1 > i {
                        assert(lex_lt(old_elems[i as int], old_elems[b - 1]));
                        lemma_lex_transitive(sv, old_elems[i as int], old_elems[b - 1]);
                    }
                } else {
                    assert(ne[a] == old_elems[a - 1]);
                    assert(ne[b] == old_elems[b - 1]);
                }
            }
            assert(ne.to_set() =~= old_elems.to_set().insert(sv)) by {
                assert forall|x: Seq<char>| ne.to_set().contains(x) implies old_elems.to_set().insert(sv).contains(x) by {
                    let k = choose|k: int| 0 <= k < ne.len() && ne[k] == x;
                    if k < i {
                        assert(old_elems[k] == x);
                    } else if k > i {
                        assert(old_elems[k - 1] == x);
                    }
                }
                assert forall|x: Seq<char>| old_elems.to_set().insert(sv).contains(x) implies ne.to_set().contains(x) by {
                    if x == sv {
                        assert(ne[i as int] == sv);
                    } else {
                        let k = choose|k: int| 0 <= k < old_elems.len() && old_elems[k] == x;
                        if k < i {
                            assert(ne[k] == x);
                        } else {
                            assert(ne[k + 1] == x);
                        }
                    }
                }
            }
        }
        self.items = items;
        true
    }
}

} // verus!
