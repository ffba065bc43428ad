//! Checking a model's final answer against the JSON schema it was asked
//! to follow (the subset of JSON Schema the runtime relies on: `enum`,
//! `type`, `required`, `properties`, `additionalProperties`, `items`).
use vstd::prelude::*;

use crate::json::{JsonNumber, JsonTree, json_parse, json_parse_outcome, json_tree, json_tree_of};
use crate::provider::llm::StructuredOutputSpec;
use crate::text::{decimal, is_blank, joined, join, owned, push_str, str_eq, str_is_blank, str_trim, trim, u64_to_decimal};

verus! {

/// A float's text stands for zero (`0.0` and `-0.0` compare equal).
pub open spec fn zero_text(t: Seq<char>) -> bool {
    t == "0.0"@ || t == "-0.0"@
}

/// Number equality as `serde_json` has it.
pub open spec fn number_eq(a: JsonNumber, b: JsonNumber) -> bool {
    match (a, b) {
        (JsonNumber::PosInt(x), JsonNumber::PosInt(y)) => x == y,
        (JsonNumber::NegInt(x), JsonNumber::NegInt(y)) => x == y,
        (JsonNumber::Float(x), JsonNumber::Float(y)) => x@ == y@ || (zero_text(x@) && zero_text(y@)),
        _ => false,
    }
}

/// Value equality as `serde_json` has it: same kind, equal members in
/// order.
pub open spec fn tree_eq(a: JsonTree, b: JsonTree) -> bool
    decreases a, 0nat,
{
    match (a, b) {
        (JsonTree::Null, JsonTree::Null) => true,
        (JsonTree::Bool(x), JsonTree::Bool(y)) => x == y,
        (JsonTree::Number(x), JsonTree::Number(y)) => number_eq(x, y),
        (JsonTree::Str(x), JsonTree::Str(y)) => x@ == y@,
        (JsonTree::Array(xs), JsonTree::Array(ys)) => items_eq(xs@, ys@),
        (JsonTree::Object(xs), JsonTree::Object(ys)) => members_eq(xs@, ys@),
        _ => false,
    }
}

pub open spec fn items_eq(xs: Seq<JsonTree>, ys: Seq<JsonTree>) -> bool
    decreases xs, 0nat,
{
    if xs.len() != ys.len() {
        false
    } else if xs.len() == 0 {
        true
    } else {
        tree_eq(xs[0], ys[0]) && items_eq(xs.drop_first(), ys.drop_first())
    }
}

pub open spec fn members_eq(xs: Seq<(String, JsonTree)>, ys: Seq<(String, JsonTree)>) -> bool
    decreases xs, 0nat,
{
    if xs.len() != ys.len() {
        false
    } else if xs.len() == 0 {
        true
    } else {
        xs[0].0@ == ys[0].0@ && tree_eq(xs[0].1, ys[0].1) && members_eq(xs.drop_first(), ys.drop_first())
    }
}

/// Where `key` is among the members (the first such member).
pub open spec fn field_index(es: Seq<(String, JsonTree)>, key: Seq<char>) -> Option<int>
    decreases es.len(),
{
    if es.len() == 0 {
        None
    } else if es[0].0@ == key {
        Some(0)
    } else {
        match field_index(es.drop_first(), key) {
            Some(i) => Some(i + 1),
            None => None,
        }
    }
}

/// The member value under `key`.
pub open spec fn field_of(es: Seq<(String, JsonTree)>, key: Seq<char>) -> Option<JsonTree> {
    match field_index(es, key) {
        Some(i) => Some(es[i].1),
        None => None,
    }
}

pub proof fn lemma_field_index(es: Seq<(String, JsonTree)>, key: Seq<char>)
    ensures
        field_index(es, key) matches Some(i) ==> 0 <= i < es.len() && es[i].0@ == key,
        field_index(es, key) is None ==> forall|k: int| 0 <= k < es.len() ==> (#[trigger] es[k]).0@ != key,
    decreases es.len(),
{
    if es.len() > 0 {
        lemma_field_index(es.drop_first(), key);
        if es[0].0@ != key {
            assert forall|k: int| 0 <= k < es.len() && field_index(es, key) is None implies (#[trigger] es[k]).0@ != key by {
                if k > 0 {
                    assert(es[k] == es.drop_first()[k - 1]);
                }
            }
        }
    }
}

/// A value has a type named in a schema (unknown names admit anything).
pub open spec fn matches_type(v: JsonTree, t: Seq<char>) -> bool {
    if t == "string"@ {
        v is Str
    } else if t == "number"@ {
        v is Number
    } else if t == "integer"@ {
        v matches JsonTree::Number(n) && !(n is Float)
    } else if t == "boolean"@ {
        v is Bool
    } else if t == "object"@ {
        v is Object
    } else if t == "array"@ {
        v is Array
    } else if t == "null"@ {
        v is Null
    } else {
        true
    }
}

/// The type names of a list: its strings, in order.
pub open spec fn type_names(ts: Seq<JsonTree>) -> Seq<Seq<char>>
    decreases ts.len(),
{
    if ts.len() == 0 {
        Seq::empty()
    } else {
        let r = type_names(ts.drop_last());
        match ts.last() {
            JsonTree::Str(s) => r.push(s@),
            _ => r,
        }
    }
}

/// A value meets a `type`: one name, one of a list of names, or anything
/// for another form.
pub open spec fn matches_type_spec(v: JsonTree, ty: JsonTree) -> bool {
    match ty {
        JsonTree::Str(t) => matches_type(v, t@),
        JsonTree::Array(ts) => exists|i: int| 0 <= i < type_names(ts@).len() && matches_type(v, #[trigger] type_names(ts@)[i]),
        _ => true,
    }
}

/// How a `type` is named in an error.
pub open spec fn describe_type_spec(ty: JsonTree) -> Seq<char> {
    match ty {
        JsonTree::Str(t) => t@,
        JsonTree::Array(ts) => if type_names(ts@).len() == 0 {
            "unknown"@
        } else {
            joined(type_names(ts@), "|"@)
        },
        _ => "unknown"@,
    }
}

/// The schema has a keyword about objects.
pub open spec fn has_object_keywords(es: Seq<(String, JsonTree)>) -> bool {
    field_index(es, "required"@) is Some || field_index(es, "properties"@) is Some || field_index(es, "additionalProperties"@) is Some
}

/// `additionalProperties` is `false`.
pub open spec fn additional_false(es: Seq<(String, JsonTree)>) -> bool {
    field_of(es, "additionalProperties"@) == Some(JsonTree::Bool(false))
}

/// The first error of the `required` list: an entry that is not a string,
/// or a key the object lacks.
pub open spec fn required_error(req: Seq<JsonTree>, vals: Seq<(String, JsonTree)>, path: Seq<char>) -> Option<Seq<char>>
    decreases req.len(),
{
    if req.len() == 0 {
        None
    } else {
        match req[0] {
            JsonTree::Str(k) => if field_index(vals, k@) is None {
                Some(path + ": missing required field `"@ + k@ + "`"@)
            } else {
                required_error(req.drop_first(), vals, path)
            },
            _ => Some(path + ": schema required entries must be strings"@),
        }
    }
}

/// The first member of the object that the properties do not name.
pub open spec fn extra_key_error(props: Seq<(String, JsonTree)>, vals: Seq<(String, JsonTree)>, path: Seq<char>) -> Option<Seq<char>>
    decreases vals.len(),
{
    if vals.len() == 0 {
        None
    } else if field_index(props, vals[0].0@) is None {
        Some(path + ": unexpected property `"@ + vals[0].0@ + "`"@)
    } else {
        extra_key_error(props, vals.drop_first(), path)
    }
}

/// Why a value does not meet a schema, the first reason found, with the
/// path of the part at fault (`$` for the whole, `.key` and `[i]` below).
pub open spec fn schema_error(schema: JsonTree, value: JsonTree, path: Seq<char>) -> Option<Seq<char>>
    decreases schema, 0nat,
{
    match schema {
        JsonTree::Object(entries) => {
            let es = entries@;
            let enum_error = match field_of(es, "enum"@) {
                Some(JsonTree::Array(c)) => if exists|i: int| 0 <= i < c@.len() && tree_eq(#[trigger] c@[i], value) {
                    None
                } else {
                    Some(path + ": value not in enum"@)
                },
                _ => None,
            };
            let type_error = match field_of(es, "type"@) {
                Some(t) => if matches_type_spec(value, t) {
                    None
                } else {
                    Some(path + ": expected "@ + describe_type_spec(t))
                },
                None => None,
            };
            if enum_error is Some {
                enum_error
            } else if type_error is Some {
                type_error
            } else {
                let object_error = if !has_object_keywords(es) {
                    None
                } else {
                    match value {
                        JsonTree::Object(vals) => {
                            let req_error = match field_of(es, "required"@) {
                                Some(JsonTree::Array(req)) => required_error(req@, vals@, path),
                                _ => None,
                            };
                            if req_error is Some {
                                req_error
                            } else {
                                match field_index(es, "properties"@) {
                                    Some(pi) => {
                                        proof {
                                            lemma_field_index(es, "properties"@);
                                        }
                                        match es[pi].1 {
                                            JsonTree::Object(props) => {
                                                let pe = props_error(props@, vals@, path);
                                                if pe is Some {
                                                    pe
                                                } else if additional_false(es) {
                                                    extra_key_error(props@, vals@, path)
                                                } else {
                                                    None
                                                }
                                            },
                                            _ => if additional_false(es) && vals@.len() > 0 {
                                                Some(path + ": unexpected property `"@ + vals@[0].0@ + "`"@)
                                            } else {
                                                None
                                            },
                                        }
                                    },
                                    None => if additional_false(es) && vals@.len() > 0 {
                                        Some(path + ": unexpected property `"@ + vals@[0].0@ + "`"@)
                                    } else {
                                        None
                                    },
                                }
                            }
                        },
                        _ => Some(path + ": expected object"@),
                    }
                };
                if object_error is Some {
                    object_error
                } else {
                    match field_index(es, "items"@) {
                        Some(ii) => {
                            proof {
                                lemma_field_index(es, "items"@);
                            }
                            match value {
                                JsonTree::Array(xs) => items_error(es[ii].1, xs@, path, 0),
                                _ => Some(path + ": expected array"@),
                            }
                        },
                        None => None,
                    }
                }
            }
        },
        _ => None,
    }
}

/// The first error among the properties the object has, each checked
/// against its schema.
pub open spec fn props_error(props: Seq<(String, JsonTree)>, vals: Seq<(String, JsonTree)>, path: Seq<char>) -> Option<Seq<char>>
    decreases props, 0nat,
{
    if props.len() == 0 {
        None
    } else {
        let key = props[0].0@;
        let here = match field_of(vals, key) {
            Some(v) => schema_error(props[0].1, v, path + "."@ + key),
            None => None,
        };
        if here is Some {
            here
        } else {
            props_error(props.drop_first(), vals, path)
        }
    }
}

/// The first error among the items from `k` on, each checked against the
/// item schema.
pub open spec fn items_error(item_schema: JsonTree, xs: Seq<JsonTree>, path: Seq<char>, k: nat) -> Option<Seq<char>>
    decreases item_schema, xs.len() - k,
{
    if k >= xs.len() {
        None
    } else {
        let here = schema_error(item_schema, xs[k as int], path + "["@ + decimal(k) + "]"@);
        if here is Some {
            here
        } else {
            items_error(item_schema, xs, path, k + 1)
        }
    }
}


fn number_equal(a: &JsonNumber, b: &JsonNumber) -> (r: bool)
    ensures
        r == number_eq(*a, *b),
{
    match (a, b) {
        (JsonNumber::PosInt(x), JsonNumber::PosInt(y)) => *x == *y,
        (JsonNumber::NegInt(x), JsonNumber::NegInt(y)) => *x == *y,
        (JsonNumber::Float(x), JsonNumber::Float(y)) => {
            str_eq(x.as_str(), y.as_str()) || ((str_eq(x.as_str(), "0.0") || str_eq(x.as_str(), "-0.0")) && (str_eq(
                y.as_str(),
                "0.0",
            ) || str_eq(y.as_str(), "-0.0")))
        },
        _ => false,
    }
}

/// Value equality as `serde_json` has it.
pub fn tree_equal(a: &JsonTree, b: &JsonTree) -> (r: bool)
    ensures
        r == tree_eq(*a, *b),
    decreases a,
{
    match a {
        JsonTree::Null => matches!(b, JsonTree::Null),
        JsonTree::Bool(x) => match b {
            JsonTree::Bool(y) => *x == *y,
            _ => false,
        },
        JsonTree::Number(x) => match b {
            JsonTree::Number(y) => number_equal(x, y),
            _ => false,
        },
        JsonTree::Str(x) => match b {
            JsonTree::Str(y) => str_eq(x.as_str(), y.as_str()),
            _ => false,
        },
        JsonTree::Array(xs) => match b {
            JsonTree::Array(ys) => {
                if xs.len() != ys.len() {
                    return false;
                }
                assert(xs@.skip(0) =~= xs@);
                assert(ys@.skip(0) =~= ys@);
                assert forall|k: int| 0 <= k < xs@.len() implies decreases_to!(*a => #[trigger] xs@[k]) by {
                    assert(decreases_to!(*a => *xs));
                    assert(decreases_to!(*xs => xs@));
                    assert(decreases_to!(xs@ => xs@[k]));
                }
                let mut i: usize = 0;
                while i < xs.len()
                    invariant
                        i <= xs.len(),
                        xs.len() == ys.len(),
                        forall|k: int| 0 <= k < xs@.len() ==> decreases_to!(*a => #[trigger] xs@[k]),
                        *a == JsonTree::Array(*xs),
                        *b == JsonTree::Array(*ys),
                        items_eq(xs@, ys@) == items_eq(xs@.skip(i as int), ys@.skip(i as int)),
                    decreases xs.len() - i,
                {
                    let ghost (t, u) = (xs@.skip(i as int), ys@.skip(i as int));
                    assert(t[0] == xs@[i as int] && u[0] == ys@[i as int]);
                    assert(t.drop_first() =~= xs@.skip(i as int + 1));
                    assert(u.drop_first() =~= ys@.skip(i as int + 1));
                    if !tree_equal(&xs[i], &ys[i]) {
                        return false;
                    }
                    i = i + 1;
                }
                true
            },
            _ => false,
        },
        JsonTree::Object(xs) => match b {
            JsonTree::Object(ys) => {
                if xs.len() != ys.len() {
                    return false;
                }
                assert(xs@.skip(0) =~= xs@);
                assert(ys@.skip(0) =~= ys@);
                assert forall|k: int| 0 <= k < xs@.len() implies decreases_to!(*a => #[trigger] xs@[k].1) by {
                    assert(decreases_to!(*a => *xs));
                    assert(decreases_to!(*xs => xs@));
                    assert(decreases_to!(xs@ => xs@[k]));
                    assert(decreases_to!(xs@[k] => xs@[k].1));
                }
                let mut i: usize = 0;
                while i < xs.len()
                    invariant
                        i <= xs.len(),
                        xs.len() == ys.len(),
                        forall|k: int| 0 <= k < xs@.len() ==> decreases_to!(*a => #[trigger] xs@[k].1),
                        *a == JsonTree::Object(*xs),
                        *b == JsonTree::Object(*ys),
                        members_eq(xs@, ys@) == members_eq(xs@.skip(i as int), ys@.skip(i as int)),
                    decreases xs.len() - i,
                {
                    let ghost (t, u) = (xs@.skip(i as int), ys@.skip(i as int));
                    assert(t[0] == xs@[i as int] && u[0] == ys@[i as int]);
                    assert(t.drop_first() =~= xs@.skip(i as int + 1));
                    assert(u.drop_first() =~= ys@.skip(i as int + 1));
                    if !str_eq(xs[i].0.as_str(), ys[i].0.as_str()) || !tree_equal(&xs[i].1, &ys[i].1) {
                        return false;
                    }
                    i = i + 1;
                }
                true
            },
            _ => false,
        },
    }
}

/// Where `key` is among the members.
fn find_field(es: &Vec<(String, JsonTree)>, key: &str) -> (r: Option<usize>)
    ensures
        match r {
            Some(i) => field_index(es@, key@) == Some(i as int) && i < es.len(),
            None => field_index(es@, key@) is None,
        },
{
    assert(es@.skip(0) =~= es@);
    let mut i: usize = 0;
    while i < es.len()
        invariant
            i <= es.len(),
            field_index(es@, key@) == match field_index(es@.skip(i as int), key@) {
                Some(j) => Some(j + i),
                None => None,
            },
        decreases es.len() - i,
    {
        let ghost t = es@.skip(i as int);
        assert(t[0] == es@[i as int]);
        assert(t.drop_first() =~= es@.skip(i as int + 1));
        if str_eq(es[i].0.as_str(), key) {
            return Some(i);
        }
        i = i + 1;
    }
    None
}

fn type_matches(v: &JsonTree, t: &str) -> (r: bool)
    ensures
        r == matches_type(*v, t@),
{
    if str_eq(t, "string") {
        matches!(v, JsonTree::Str(_))
    } else if str_eq(t, "number") {
        matches!(v, JsonTree::Number(_))
    } else if str_eq(t, "integer") {
        match v {
            JsonTree::Number(JsonNumber::Float(_)) => false,
            JsonTree::Number(_) => true,
            _ => false,
        }
    } else if str_eq(t, "boolean") {
        matches!(v, JsonTree::Bool(_))
    } else if str_eq(t, "object") {
        matches!(v, JsonTree::Object(_))
    } else if str_eq(t, "array") {
        matches!(v, JsonTree::Array(_))
    } else if str_eq(t, "null") {
        matches!(v, JsonTree::Null)
    } else {
        true
    }
}

/// The type names of a list, in order.
fn type_name_list(ts: &Vec<JsonTree>) -> (r: Vec<String>)
    ensures
        r@.map_values(|s: String| s@) == type_names(ts@),
{
    let mut out: Vec<String> = Vec::new();
    let mut i: usize = 0;
    while i < ts.len()
        invariant
            i <= ts.len(),
            out@.map_values(|s: String| s@) == type_names(ts@.take(i as int)),
        decreases ts.len() - i,
    {
        assert(ts@.take(i as int + 1).drop_last() =~= ts@.take(i as int));
        assert(ts@.take(i as int + 1).last() == ts@[i as int]);
        let ghost prev = out@.map_values(|s: String| s@);
        match &ts[i] {
            JsonTree::Str(x) => {
                out.push(x.clone());
                assert(out@.map_values(|s: String| s@) =~= prev.push(x@));
            },
            _ => {},
        }
        i = i + 1;
    }
    assert(ts@.take(ts.len() as int) =~= ts@);
    out
}

fn type_spec_matches(v: &JsonTree, ty: &JsonTree) -> (r: bool)
    ensures
        r == matches_type_spec(*v, *ty),
{
    match ty {
        JsonTree::Str(t) => type_matches(v, t.as_str()),
        JsonTree::Array(ts) => {
            let names = type_name_list(ts);
            let ghost nv = names@.map_values(|s: String| s@);
            let mut i: usize = 0;
            while i < names.len()
                invariant
                    i <= names.len(),
                    nv == names@.map_values(|s: String| s@),
                    nv == type_names(ts@),
                    *ty == JsonTree::Array(*ts),
                    forall|k: int| 0 <= k < i ==> !matches_type(*v, #[trigger] nv[k]),
                decreases names.len() - i,
            {
                if type_matches(v, names[i].as_str()) {
                    assert(names@[i as int]@ == nv[i as int]);
                    assert(0 <= i < type_names(ts@).len());
                    assert(matches_type(*v, type_names(ts@)[i as int]));
                    assert(exists|j: int| 0 <= j < type_names(ts@).len() && matches_type(*v, #[trigger] type_names(ts@)[j]));
                    assert((*ty)->Array_0 == *ts);
                    assert(type_names(((*ty)->Array_0)@)[i as int] == type_names(ts@)[i as int]);
                    assert(matches_type_spec(*v, *ty));
                    return true;
                }
                i = i + 1;
            }
            false
        },
        _ => true,
    }
}

fn describe(ty: &JsonTree) -> (r: String)
    ensures
        r@ == describe_type_spec(*ty),
{
    match ty {
        JsonTree::Str(t) => t.clone(),
        JsonTree::Array(ts) => {
            let names = type_name_list(ts);
            if names.len() == 0 {
                owned("unknown")
            } else {
                join(&names, "|")
            }
        },
        _ => owned("unknown"),
    }
}

/// Some candidate equals the value.
fn any_tree_equal(c: &Vec<JsonTree>, value: &JsonTree) -> (r: bool)
    ensures
        r == exists|i: int| 0 <= i < c@.len() && tree_eq(#[trigger] c@[i], *value),
{
    let mut k: usize = 0;
    while k < c.len()
        invariant
            k <= c.len(),
            forall|j: int| 0 <= j < k ==> !tree_eq(#[trigger] c@[j], *value),
        decreases c.len() - k,
    {
        if tree_equal(&c[k], value) {
            return true;
        }
        k = k + 1;
    }
    false
}

/// `path` followed by a message.
fn at(path: &str, message: &str) -> (r: String)
    ensures
        r@ == path@ + message@,
{
    let mut e = owned(path);
    push_str(&mut e, message);
    e
}

/// Checks a value against a schema; see [`schema_error`].
pub fn validate_tree(schema: &JsonTree, value: &JsonTree, path: &str) -> (r: Result<(), String>)
    ensures
        match r {
            Ok(()) => schema_error(*schema, *value, path@) is None,
            Err(e) => schema_error(*schema, *value, path@) == Some(e@),
        },
    decreases schema,
{
    let entries = match schema {
        JsonTree::Object(entries) => entries,
        _ => return Ok(()),
    };
    let ghost es = entries@;
    proof {
        lemma_field_index(es, "enum"@);
        lemma_field_index(es, "type"@);
        lemma_field_index(es, "required"@);
        lemma_field_index(es, "properties"@);
        lemma_field_index(es, "additionalProperties"@);
        lemma_field_index(es, "items"@);
    }
    match find_field(entries, "enum") {
        Some(i) => match &entries[i].1 {
            JsonTree::Array(c) => {
                if !any_tree_equal(c, value) {
                    return Err(at(path, ": value not in enum"));
                }
            },
            _ => {},
        },
        None => {},
    }
    match find_field(entries, "type") {
        Some(i) => {
            if !type_spec_matches(value, &entries[i].1) {
                let d = describe(&entries[i].1);
                let mut e = at(path, ": expected ");
                push_str(&mut e, d.as_str());
                return Err(e);
            }
        },
        None => {},
    }
    let pi = find_field(entries, "properties");
    let additional = match find_field(entries, "additionalProperties") {
        Some(i) => match &entries[i].1 {
            JsonTree::Bool(b) => Some(*b),
            _ => None,
        },
        None => None,
    };
    let additional_is_false = match additional {
        Some(b) => !b,
        None => false,
    };
    assert(additional_is_false == additional_false(es));
    let ri = find_field(entries, "required");
    if ri.is_some() || pi.is_some() || find_field(entries, "additionalProperties").is_some() {
        let vals = match value {
            JsonTree::Object(vals) => vals,
            _ => return Err(at(path, ": expected object")),
        };
        match ri {
            Some(i) => match &entries[i].1 {
                JsonTree::Array(req) => {
                    match check_required(req, vals, path) {
                        Err(e) => return Err(e),
                        Ok(()) => {},
                    }
                },
                _ => {},
            },
            None => {},
        }
        let lone_extra = match pi {
            Some(i) => match &entries[i].1 {
                JsonTree::Object(props) => {
                    assert(decreases_to!(*schema => props@));
                    match check_props(schema, props, vals, path) {
                        Err(e) => return Err(e),
                        Ok(()) => {},
                    }
                    if additional_is_false {
                        match check_extra_keys(props, vals, path) {
                            Err(e) => return Err(e),
                            Ok(()) => {},
                        }
                    }
                    false
                },
                _ => true,
            },
            None => true,
        };
        if lone_extra && additional_is_false && vals.len() > 0 {
            let mut e = at(path, ": unexpected property `");
            push_str(&mut e, vals[0].0.as_str());
            push_str(&mut e, "`");
            return Err(e);
        }
    }
    match find_field(entries, "items") {
        Some(ii) => {
            let xs = match value {
                JsonTree::Array(xs) => xs,
                _ => return Err(at(path, ": expected array")),
            };
            let item_schema = &entries[ii].1;
            assert(decreases_to!(*schema => *item_schema));
            assert(schema_error(*schema, *value, path@) == items_error(*item_schema, xs@, path@, 0));
            let mut k: usize = 0;
            while k < xs.len()
                invariant
                    k <= xs.len(),
                    decreases_to!(*schema => *item_schema),
                    schema_error(*schema, *value, path@) == items_error(*item_schema, xs@, path@, 0),
                    items_error(*item_schema, xs@, path@, 0) == items_error(*item_schema, xs@, path@, k as nat),
                decreases xs.len() - k,
            {
                let mut p = at(path, "[");
                push_str(&mut p, u64_to_decimal(k as u64).as_str());
                push_str(&mut p, "]");
                match validate_tree(item_schema, &xs[k], p.as_str()) {
                    Err(e) => return Err(e),
                    Ok(()) => {},
                }
                k = k + 1;
            }
            Ok(())
        },
        None => Ok(()),
    }
}

fn check_required(req: &Vec<JsonTree>, vals: &Vec<(String, JsonTree)>, path: &str) -> (r: Result<(), String>)
    ensures
        match r {
            Ok(()) => required_error(req@, vals@, path@) is None,
            Err(e) => required_error(req@, vals@, path@) == Some(e@),
        },
{
    assert(req@.skip(0) =~= req@);
    let mut i: usize = 0;
    while i < req.len()
        invariant
            i <= req.len(),
            required_error(req@, vals@, path@) == required_error(req@.skip(i as int), vals@, path@),
        decreases req.len() - i,
    {
        let ghost t = req@.skip(i as int);
        assert(t[0] == req@[i as int]);
        assert(t.drop_first() =~= req@.skip(i as int + 1));
        match &req[i] {
            JsonTree::Str(k) => {
                if find_field(vals, k.as_str()).is_none() {
                    let mut e = at(path, ": missing required field `");
                    push_str(&mut e, k.as_str());
                    push_str(&mut e, "`");
                    return Err(e);
                }
            },
            _ => return Err(at(path, ": schema required entries must be strings")),
        }
        i = i + 1;
    }
    Ok(())
}

fn check_extra_keys(props: &Vec<(String, JsonTree)>, vals: &Vec<(String, JsonTree)>, path: &str) -> (r: Result<(), String>)
    ensures
        match r {
            Ok(()) => extra_key_error(props@, vals@, path@) is None,
            Err(e) => extra_key_error(props@, vals@, path@) == Some(e@),
        },
{
    assert(vals@.skip(0) =~= vals@);
    let mut i: usize = 0;
    while i < vals.len()
        invariant
            i <= vals.len(),
            extra_key_error(props@, vals@, path@) == extra_key_error(props@, vals@.skip(i as int), path@),
        decreases vals.len() - i,
    {
        let ghost t = vals@.skip(i as int);
        assert(t[0] == vals@[i as int]);
        assert(t.drop_first() =~= vals@.skip(i as int + 1));
        if find_field(props, vals[i].0.as_str()).is_none() {
            let mut e = at(path, ": unexpected property `");
            push_str(&mut e, vals[i].0.as_str());
            push_str(&mut e, "`");
            return Err(e);
        }
        i = i + 1;
    }
    Ok(())
}

/// Checks the properties the object has against their schemas (`schema`
/// holds them).
fn check_props(schema: &JsonTree, props: &Vec<(String, JsonTree)>, vals: &Vec<(String, JsonTree)>, path: &str) -> (r: Result<(), String>)
    requires
        decreases_to!(*schema => props@),
    ensures
        match r {
            Ok(()) => props_error(props@, vals@, path@) is None,
            Err(e) => props_error(props@, vals@, path@) == Some(e@),
        },
    decreases schema, 1nat,
{
    assert(props@.skip(0) =~= props@);
    let mut i: usize = 0;
    while i < props.len()
        invariant
            i <= props.len(),
            decreases_to!(*schema => props@),
            props_error(props@, vals@, path@) == props_error(props@.skip(i as int), vals@, path@),
        decreases props.len() - i,
    {
        let ghost t = props@.skip(i as int);
        assert(t[0] == props@[i as int]);
        assert(t.drop_first() =~= props@.skip(i as int + 1));
        let key = props[i].0.as_str();
        match find_field(vals, key) {
            Some(j) => {
                proof {
                    lemma_field_index(vals@, key@);
                }
                let mut p = at(path, ".");
                push_str(&mut p, key);
                assert(decreases_to!(*schema => props@[i as int].1));
                match validate_tree(&props[i].1, &vals[j].1, p.as_str()) {
                    Err(e) => return Err(e),
                    Ok(()) => {},
                }
            },
            None => {},
        }
        i = i + 1;
    }
    Ok(())
}

/// Checks a value against a schema, both as `serde_json` values.
pub fn validate_value_against_schema(schema: &serde_json::Value, value: &serde_json::Value, path: &str) -> (r: Result<(), String>)
    ensures
        match r {
            Ok(()) => schema_error(json_tree_of(*schema), json_tree_of(*value), path@) is None,
            Err(e) => schema_error(json_tree_of(*schema), json_tree_of(*value), path@) == Some(e@),
        },
{
    let s = json_tree(schema);
    let v = json_tree(value);
    validate_tree(&s, &v, path)
}

/// What parsing a structured answer gives: the value where the trimmed
/// text is JSON that meets the schema, else the error.
pub open spec fn structured_output_result(schema: serde_json::Value, text: Seq<char>) -> Result<serde_json::Value, Seq<char>> {
    if is_blank(text) {
        Err("structured_output_empty_response"@)
    } else {
        match json_parse_outcome(trim(text)) {
            Err(e) => Err("structured_output_invalid_json: "@ + e),
            Ok(v) => match schema_error(json_tree_of(schema), json_tree_of(v), "$"@) {
                Some(e) => Err("structured_output_schema_validation_failed: "@ + e),
                None => Ok(v),
            },
        }
    }
}

/// Reads a model's final answer as JSON and checks it against the schema.
pub fn parse_structured_output(output_spec: &StructuredOutputSpec, text: &str) -> (r: Result<serde_json::Value, String>)
    ensures
        match r {
            Ok(v) => structured_output_result(output_spec.schema, text@) == Ok::<serde_json::Value, Seq<char>>(v),
            Err(e) => structured_output_result(output_spec.schema, text@) == Err::<serde_json::Value, Seq<char>>(e@),
        },
{
    if str_is_blank(text) {
        return Err(owned("structured_output_empty_response"));
    }
    let trimmed = str_trim(text);
    match json_parse(trimmed.as_str()) {
        Err(e) => {
            let mut m = owned("structured_output_invalid_json: ");
            push_str(&mut m, e.as_str());
            Err(m)
        },
        Ok(v) => match validate_value_against_schema(&output_spec.schema, &v, "$") {
            Err(e) => {
                let mut m = owned("structured_output_schema_validation_failed: ");
                push_str(&mut m, e.as_str());
                Err(m)
            },
            Ok(()) => Ok(v),
        },
    }
}

} // verus!
