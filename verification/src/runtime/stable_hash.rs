//! Stable hashes of JSON values: SHA-256 of the compact text of the value
//! with object members in key order.
use vstd::prelude::*;

use crate::json::{JsonTree, json_of_tree, json_text_of, json_to_text, json_tree, json_tree_of, tree_to_json};
use crate::text::{lex_lt, lemma_lex_asymmetric, lemma_lex_total, str_eq, str_lt};

verus! {

/// The lowercase hexadecimal digit of a number below 16.
pub open spec fn hex_digit(n: u8) -> char {
    if n < 10 {
        (48 + n) as char
    } else {
        (87 + n) as char
    }
}

/// Two lowercase hexadecimal digits per byte, high digit first
/// (`hex::encode`).
pub open spec fn hex_of(bytes: Seq<u8>) -> Seq<char>
    decreases bytes.len(),
{
    if bytes.len() == 0 {
        Seq::empty()
    } else {
        hex_of(bytes.drop_last()) + seq![hex_digit(bytes.last() / 16), hex_digit(bytes.last() % 16)]
    }
}

/// `hex::encode`: lowercase hexadecimal, two digits per byte.
#[verifier::external_body]
fn hex_encode(bytes: &[u8]) -> (r: String)
    ensures
        r@ == hex_of(bytes@),
{
    hex::encode(bytes)
}

/// The SHA-256 digest of a byte string.
pub uninterp spec fn sha256_of(bytes: Seq<u8>) -> Seq<u8>;

/// `sha2::Sha256::digest`: the 32-byte digest of the bytes.
#[verifier::external_body]
fn sha256_digest(bytes: &[u8]) -> (r: Vec<u8>)
    ensures
        r@ == sha256_of(bytes@),
        r@.len() == 32,
{
    <sha2::Sha256 as sha2::Digest>::digest(bytes).to_vec()
}

proof fn lemma_hex_len(bytes: Seq<u8>)
    ensures
        hex_of(bytes).len() == 2 * bytes.len(),
    decreases bytes.len(),
{
    if bytes.len() > 0 {
        lemma_hex_len(bytes.drop_last());
    }
}

/// The SHA-256 digest of the bytes in lowercase hexadecimal.
pub fn sha256_hex(bytes: &[u8]) -> (r: String)
    ensures
        r@ == hex_of(sha256_of(bytes@)),
        r@.len() == 64,
{
    let d = sha256_digest(bytes);
    proof {
        lemma_hex_len(d@);
    }
    hex_encode(d.as_slice())
}

/// Inserts a member into members ordered by key: a member with the same
/// key takes the new value (and keeps its key), otherwise the member goes
/// where its key belongs.
pub open spec fn insert_member(s: Seq<(String, JsonTree)>, k: String, v: JsonTree) -> Seq<(String, JsonTree)>
    decreases s.len(),
{
    if s.len() == 0 {
        seq![(k, v)]
    } else if s.last().0@ == k@ {
        s.drop_last().push((s.last().0, v))
    } else if lex_lt(k@, s.last().0@) {
        insert_member(s.drop_last(), k, v).push(s.last())
    } else {
        s.push((k, v))
    }
}

/// The members in key order, each key once with the last value given for
/// it (as a `BTreeMap` collects them); `vals[i]` stands for member `i`.
pub open spec fn collected(es: Seq<(String, JsonTree)>, vals: Seq<JsonTree>) -> Seq<(String, JsonTree)>
    decreases es.len(),
{
    if es.len() == 0 {
        Seq::empty()
    } else {
        insert_member(collected(es.drop_last(), vals), es.last().0, vals[es.len() - 1])
    }
}

/// `r` is the canonical form of `t`: arrays member by member, objects with
/// their members collected in key order, their values canonical.
pub open spec fn canonical_of(r: JsonTree, t: JsonTree) -> bool
    decreases t,
{
    match t {
        JsonTree::Array(xs) => match r {
            JsonTree::Array(rs) => rs@.len() == xs@.len() && forall|i: int|
                0 <= i < xs@.len() ==> canonical_of(#[trigger] rs@[i], xs@[i]),
            _ => false,
        },
        JsonTree::Object(es) => match r {
            JsonTree::Object(rs) => exists|vals: Seq<JsonTree>|
                vals.len() == es@.len() && (forall|i: int| 0 <= i < es@.len() ==> canonical_of(#[trigger] vals[i], es@[i].1))
                    && #[trigger] collected(es@, vals) == rs@,
            _ => false,
        },
        _ => r == t,
    }
}

/// Where `insert_member` puts key `k`: after the members whose keys do not
/// come after it.
proof fn lemma_insert_member_at(s: Seq<(String, JsonTree)>, k: String, v: JsonTree, j: int)
    requires
        0 <= j <= s.len(),
        forall|m: int| j <= m < s.len() ==> lex_lt(k@, (#[trigger] s[m]).0@),
        j == 0 || !lex_lt(k@, s[j - 1].0@),
    ensures
        j > 0 && s[j - 1].0@ == k@ ==> insert_member(s, k, v) == s.update(j - 1, (s[j - 1].0, v)),
        !(j > 0 && s[j - 1].0@ == k@) ==> insert_member(s, k, v) == s.insert(j, (k, v)),
    decreases s.len(),
{
    if s.len() == 0 {
        assert(s.insert(0, (k, v)) =~= seq![(k, v)]);
    } else if j == s.len() {
        if s.last().0@ == k@ {
            assert(s.drop_last().push((s.last().0, v)) =~= s.update(j - 1, (s[j - 1].0, v)));
        } else {
            assert(s.insert(j, (k, v)) =~= s.push((k, v)));
        }
    } else {
        let l = s.last();
        assert(lex_lt(k@, l.0@));
        crate::text::lemma_lex_irreflexive(k@);
        assert(l.0@ != k@);
        let p = s.drop_last();
        assert forall|m: int| j <= m < p.len() implies lex_lt(k@, (#[trigger] p[m]).0@) by {
            assert(p[m] == s[m]);
        }
        if j > 0 {
            assert(p[j - 1] == s[j - 1]);
        }
        lemma_insert_member_at(p, k, v, j);
        if j > 0 && s[j - 1].0@ == k@ {
            assert(p.update(j - 1, (p[j - 1].0, v)).push(l) =~= s.update(j - 1, (s[j - 1].0, v)));
        } else {
            assert(p.insert(j, (k, v)).push(l) =~= s.insert(j, (k, v)));
        }
    }
}

/// Inserts a member as a `BTreeMap` would (see [`insert_member`]).
fn insert_member_exec(s: &mut Vec<(String, JsonTree)>, k: String, v: JsonTree)
    ensures
        final(s)@ == insert_member(old(s)@, k, v),
{
    let mut j: usize = s.len();
    while j > 0 && str_lt(k.as_str(), s[j - 1].0.as_str())
        invariant
            j <= s.len(),
            forall|m: int| j <= m < s.len() ==> lex_lt(k@, (#[trigger] s@[m]).0@),
        decreases j,
    {
        j = j - 1;
    }
    proof {
        lemma_insert_member_at(s@, k, v, j as int);
    }
    if j > 0 && str_eq(s[j - 1].0.as_str(), k.as_str()) {
        let (old_key, _old_value) = s.remove(j - 1);
        s.insert(j - 1, (old_key, v));
    } else {
        s.insert(j, (k, v));
    }
}

/// The canonical form of a tree: object members in key order, each key
/// once.
pub fn canonicalize_tree(t: &JsonTree) -> (r: JsonTree)
    ensures
        canonical_of(r, *t),
    decreases t,
{
    match t {
        JsonTree::Array(xs) => {
            let mut rs: Vec<JsonTree> = Vec::new();
            let mut i: usize = 0;
            while i < xs.len()
                invariant
                    i <= xs.len(),
                    rs@.len() == i,
                    *t == JsonTree::Array(*xs),
                    forall|m: int| 0 <= m < i ==> canonical_of(#[trigger] rs@[m], xs@[m]),
                decreases xs.len() - i,
            {
                assert(decreases_to!(*t => xs@[i as int])) by {
                    assert(decreases_to!(*t => (*t)->Array_0));
                    assert(decreases_to!(*xs => xs@));
                    assert(decreases_to!(xs@ => xs@[i as int]));
                }
                let c = canonicalize_tree(&xs[i]);
                rs.push(c);
                i = i + 1;
            }
            JsonTree::Array(rs)
        },
        JsonTree::Object(es) => {
            let mut out: Vec<(String, JsonTree)> = Vec::new();
            let ghost mut vals: Seq<JsonTree> = Seq::empty();
            let mut i: usize = 0;
            while i < es.len()
                invariant
                    i <= es.len(),
                    vals.len() == i,
                    *t == JsonTree::Object(*es),
                    forall|m: int| 0 <= m < i ==> canonical_of(#[trigger] vals[m], es@[m].1),
                    out@ == collected(es@.take(i as int), vals),
                decreases es.len() - i,
            {
                assert(decreases_to!(*t => es@[i as int].1)) by {
                    assert(decreases_to!(*t => (*t)->Object_0));
                    assert(decreases_to!(*es => es@));
                    assert(decreases_to!(es@ => es@[i as int]));
                    assert(decreases_to!(es@[i as int] => es@[i as int].1));
                }
                let c = canonicalize_tree(&es[i].1);
                let ghost cv = c;
                let k = es[i].0.clone();
                insert_member_exec(&mut out, k, c);
                proof {
                    let nv = vals.push(cv);
                    let pre = es@.take(i as int + 1);
                    assert(pre.drop_last() =~= es@.take(i as int));
                    assert(pre.last() == es@[i as int]);
                    lemma_collected_prefix(es@.take(i as int), vals, nv);
                    vals = nv;
                }
                i = i + 1;
            }
            assert(es@.take(es.len() as int) =~= es@);
            JsonTree::Object(out)
        },
        JsonTree::Null => JsonTree::Null,
        JsonTree::Bool(b) => JsonTree::Bool(*b),
        JsonTree::Number(n) => JsonTree::Number(match n {
            crate::json::JsonNumber::PosInt(x) => crate::json::JsonNumber::PosInt(*x),
            crate::json::JsonNumber::NegInt(x) => crate::json::JsonNumber::NegInt(*x),
            crate::json::JsonNumber::Float(x) => crate::json::JsonNumber::Float(x.clone()),
        }),
        JsonTree::Str(s) => JsonTree::Str(s.clone()),
    }
}

/// Collecting depends only on the values given for the members collected.
proof fn lemma_collected_prefix(es: Seq<(String, JsonTree)>, vals: Seq<JsonTree>, more: Seq<JsonTree>)
    requires
        vals.len() == es.len(),
        more.len() >= es.len(),
        forall|m: int| 0 <= m < es.len() ==> more[m] == vals[m],
    ensures
        collected(es, more) == collected(es, vals),
    decreases es.len(),
{
    if es.len() > 0 {
        lemma_collected_prefix(es.drop_last(), vals.drop_last(), more);
        assert(collected(es.drop_last(), vals) == collected(es.drop_last(), vals.drop_last())) by {
            lemma_collected_prefix(es.drop_last(), vals.drop_last(), vals);
        }
    }
}

/// The canonical form of a JSON value: object members in key order.
pub fn canonicalize_json(value: &serde_json::Value) -> (r: serde_json::Value)
    ensures
        exists|c: JsonTree| canonical_of(c, json_tree_of(*value)) && r == json_of_tree(c),
{
    let t = json_tree(value);
    let c = canonicalize_tree(&t);
    let r = tree_to_json(&c);
    assert(canonical_of(c, json_tree_of(*value)) && r == json_of_tree(c));
    r
}

/// `h` is the stable hash of `value`: 64 hexadecimal digits of the SHA-256
/// of the compact text of the canonical form of the value.
pub open spec fn stable_hash_of(h: Seq<char>, value: serde_json::Value) -> bool {
    &&& h.len() == 64
    &&& exists|c: JsonTree|
        canonical_of(c, json_tree_of(value)) && h == hex_of(
            sha256_of(vstd::utf8::encode_utf8(json_text_of(#[trigger] json_of_tree(c)))),
        )
}

/// The hash of a JSON value that does not depend on member order: SHA-256
/// of the compact text of its canonical form, in lowercase hexadecimal.
pub fn stable_json_sha256_hex(value: &serde_json::Value) -> (r: String)
    ensures
        stable_hash_of(r@, *value),
{
    let t = json_tree(value);
    let c = canonicalize_tree(&t);
    let canonical = tree_to_json(&c);
    let r = match json_to_text(&canonical) {
        Some(text) => sha256_hex(text.as_str().as_bytes()),
        None => {
            let empty: Vec<u8> = Vec::new();
            assert(empty@ =~= Seq::<u8>::empty());
            sha256_hex(empty.as_slice())
        },
    };
    assert(canonical_of(c, json_tree_of(*value)));
    r
}

} // verus!
