//! The JSON Schema subset accepted for the inputs of package-skill tools,
//! and the check of an input against it.
use vstd::prelude::*;

use crate::json::{JsonNumber, JsonTree, json_tree, json_tree_of};
use crate::runtime::structured_output::{field_index, field_of, lemma_field_index};
use crate::text::{owned, push_str, str_eq};

verus! {

/// Property types a package skill may declare.
pub open spec fn supported_property_type(t: Seq<char>) -> bool {
    t == "string"@ || t == "integer"@ || t == "number"@ || t == "boolean"@ || t == "object"@ || t == "array"@
}

/// Why a property's schema is refused, if it is.
pub open spec fn property_schema_error(name: Seq<char>, ps: JsonTree) -> Option<Seq<char>> {
    match ps {
        JsonTree::Object(es) => match field_of(es@, "type"@) {
            Some(JsonTree::Str(t)) => if supported_property_type(t@) {
                None
            } else {
                Some("property "@ + name + " has unsupported type: "@ + t@)
            },
            _ => Some("property "@ + name + " missing type"@),
        },
        _ => Some("property schema for "@ + name + " must be object"@),
    }
}

/// The first refused property schema, in order.
pub open spec fn properties_error(ps: Seq<(String, JsonTree)>) -> Option<Seq<char>>
    decreases ps.len(),
{
    if ps.len() == 0 {
        None
    } else {
        match property_schema_error(ps[0].0@, ps[0].1) {
            Some(e) => Some(e),
            None => properties_error(ps.drop_first()),
        }
    }
}

/// The names of a `required` list, or why it is refused.
pub open spec fn required_names(xs: Seq<JsonTree>) -> Result<Seq<Seq<char>>, Seq<char>>
    decreases xs.len(),
{
    if xs.len() == 0 {
        Ok(Seq::empty())
    } else {
        match xs[0] {
            JsonTree::Str(k) => match required_names(xs.drop_first()) {
                Ok(r) => Ok(seq![k@] + r),
                Err(e) => Err(e),
            },
            _ => Err("required entries must be strings"@),
        }
    }
}

/// The required fields of a schema object, or why they are refused.
pub open spec fn required_fields(es: Seq<(String, JsonTree)>) -> Result<Seq<Seq<char>>, Seq<char>> {
    match field_of(es, "required"@) {
        None => Ok(Seq::empty()),
        Some(JsonTree::Array(xs)) => required_names(xs@),
        Some(_) => Err("required must be array"@),
    }
}

/// The first key not among the members.
pub open spec fn first_absent(keys: Seq<Seq<char>>, es: Seq<(String, JsonTree)>) -> Option<Seq<char>>
    decreases keys.len(),
{
    if keys.len() == 0 {
        None
    } else if field_index(es, keys[0]) is None {
        Some(keys[0])
    } else {
        first_absent(keys.drop_first(), es)
    }
}

/// Why a package-skill input schema is refused, if it is.
pub open spec fn input_schema_error(schema: JsonTree) -> Option<Seq<char>> {
    match schema {
        JsonTree::Object(entries) => {
            let es = entries@;
            let typ = match field_of(es, "type"@) {
                Some(JsonTree::Str(t)) => t@,
                _ => "object"@,
            };
            if typ != "object"@ {
                Some("schema type must be object"@)
            } else {
                let props: Result<Option<Seq<(String, JsonTree)>>, Seq<char>> = match field_of(es, "properties"@) {
                    None => Ok(None),
                    Some(JsonTree::Object(ps)) => Ok(Some(ps@)),
                    Some(_) => Err("properties must be object"@),
                };
                match props {
                    Err(e) => Some(e),
                    Ok(props) => {
                        let prop_error = match props {
                            Some(ps) => properties_error(ps),
                            None => None,
                        };
                        if prop_error is Some {
                            prop_error
                        } else {
                            match required_fields(es) {
                                Err(e) => Some(e),
                                Ok(req) => {
                                    let req_error = if req.len() == 0 {
                                        None
                                    } else {
                                        match props {
                                            None => Some("required fields require properties definitions"@),
                                            Some(ps) => match first_absent(req, ps) {
                                                Some(k) => Some("required field not declared in properties: "@ + k),
                                                None => None,
                                            },
                                        }
                                    };
                                    if req_error is Some {
                                        req_error
                                    } else {
                                        match field_of(es, "additionalProperties"@) {
                                            Some(JsonTree::Bool(_)) | None => None,
                                            Some(_) => Some("additionalProperties must be boolean"@),
                                        }
                                    }
                                },
                            }
                        }
                    },
                }
            }
        },
        _ => Some("schema must be object"@),
    }
}

/// Whether a value has a property type (an unknown type admits nothing).
pub open spec fn input_type_ok(v: JsonTree, t: Seq<char>) -> bool {
    if t == "string"@ {
        v is Str
    } else if t == "integer"@ {
        v matches JsonTree::Number(n) && !(n is Float)
    } else if t == "number"@ {
        v is Number
    } else if t == "boolean"@ {
        v is Bool
    } else if t == "object"@ {
        v is Object
    } else if t == "array"@ {
        v is Array
    } else {
        false
    }
}

/// Why an input value does not fit its property's schema, if it does not.
pub open spec fn input_value_error(name: Seq<char>, ps: JsonTree, v: JsonTree) -> Option<Seq<char>> {
    match ps {
        JsonTree::Object(es) => {
            let typ = match field_of(es@, "type"@) {
                Some(JsonTree::Str(t)) => t@,
                _ => "string"@,
            };
            if input_type_ok(v, typ) {
                None
            } else {
                Some("invalid type for "@ + name + ": expected "@ + typ)
            }
        },
        _ => Some("property schema for "@ + name + " must be object"@),
    }
}

/// The first input member that the properties do not name.
pub open spec fn first_undeclared(vals: Seq<(String, JsonTree)>, props: Option<Seq<(String, JsonTree)>>) -> Option<Seq<char>>
    decreases vals.len(),
{
    if vals.len() == 0 {
        None
    } else if match props {
        None => true,
        Some(ps) => field_index(ps, vals[0].0@) is None,
    } {
        Some(vals[0].0@)
    } else {
        first_undeclared(vals.drop_first(), props)
    }
}

/// The first property whose input value does not fit.
pub open spec fn values_error(ps: Seq<(String, JsonTree)>, vals: Seq<(String, JsonTree)>) -> Option<Seq<char>>
    decreases ps.len(),
{
    if ps.len() == 0 {
        None
    } else {
        let here = match field_of(vals, ps[0].0@) {
            Some(v) => input_value_error(ps[0].0@, ps[0].1, v),
            None => None,
        };
        if here is Some {
            here
        } else {
            values_error(ps.drop_first(), vals)
        }
    }
}

/// Why an input does not fit a package-skill schema, if it does not: the
/// schema's own error, then the input's shape, required fields, undeclared
/// fields (where `additionalProperties` is `false`), and property types.
pub open spec fn input_error(schema: JsonTree, input: JsonTree) -> Option<Seq<char>> {
    if input_schema_error(schema) is Some {
        input_schema_error(schema)
    } else {
        match (schema, input) {
            (JsonTree::Object(entries), JsonTree::Object(vals)) => {
                let es = entries@;
                let props = match field_of(es, "properties"@) {
                    Some(JsonTree::Object(ps)) => Some(ps@),
                    _ => None,
                };
                let req = match required_fields(es) {
                    Ok(r) => r,
                    Err(_) => Seq::empty(),
                };
                match first_absent(req, vals@) {
                    Some(k) => Some("missing required field: "@ + k),
                    None => {
                        let additional = match field_of(es, "additionalProperties"@) {
                            Some(JsonTree::Bool(b)) => b,
                            _ => true,
                        };
                        let extra = if additional {
                            None
                        } else {
                            first_undeclared(vals@, props)
                        };
                        match extra {
                            Some(k) => Some("unexpected field: "@ + k),
                            None => match props {
                                Some(ps) => values_error(ps, vals@),
                                None => None,
                            },
                        }
                    },
                }
            },
            (JsonTree::Object(_), _) => Some("input must be object"@),
            _ => Some("schema must be object"@),
        }
    }
}

/// Looks a member up (checked).
fn find(es: &Vec<(String, JsonTree)>, key: &str) -> (r: Option<usize>)
    ensures
        match r {
            Some(i) => field_index(es@, key@) == Some(i as int) && i < es.len(),
            None => field_index(es@, key@) is None,
        },
{
    assert(es@.skip(0) =~= es@);
    let mut i: usize = 0;
    while i < es.len()
        invariant
            i <= es.len(),
            field_index(es@, key@) == match field_index(es@.skip(i as int), key@) {
                Some(j) => Some(j + i),
                None => None,
            },
        decreases es.len() - i,
    {
        let ghost t = es@.skip(i as int);
        assert(t[0] == es@[i as int]);
        assert(t.drop_first() =~= es@.skip(i as int + 1));
        if str_eq(es[i].0.as_str(), key) {
            return Some(i);
        }
        i = i + 1;
    }
    None
}

/// The member value under `key`.
fn get<'a>(es: &'a Vec<(String, JsonTree)>, key: &str) -> (r: Option<&'a JsonTree>)
    ensures
        match r {
            Some(t) => field_of(es@, key@) == Some(*t),
            None => field_of(es@, key@) is None,
        },
{
    match find(es, key) {
        Some(i) => Some(&es[i].1),
        None => None,
    }
}

fn concat3(a: &str, b: &str, c: &str) -> (r: String)
    ensures
        r@ == a@ + b@ + c@,
{
    let mut s = owned(a);
    push_str(&mut s, b);
    push_str(&mut s, c);
    s
}

fn check_property_schema(name: &str, ps: &JsonTree) -> (r: Result<(), String>)
    ensures
        match r {
            Ok(()) => property_schema_error(name@, *ps) is None,
            Err(e) => property_schema_error(name@, *ps) == Some(e@),
        },
{
    match ps {
        JsonTree::Object(es) => match get(es, "type") {
            Some(JsonTree::Str(t)) => {
                let t = t.as_str();
                if str_eq(t, "string") || str_eq(t, "integer") || str_eq(t, "number") || str_eq(t, "boolean") || str_eq(t, "object")
                    || str_eq(t, "array") {
                    Ok(())
                } else {
                    let mut e = concat3("property ", name, " has unsupported type: ");
                    push_str(&mut e, t);
                    Err(e)
                }
            },
            _ => Err(concat3("property ", name, " missing type")),
        },
        _ => Err(concat3("property schema for ", name, " must be object")),
    }
}

fn check_properties(ps: &Vec<(String, JsonTree)>) -> (r: Result<(), String>)
    ensures
        match r {
            Ok(()) => properties_error(ps@) is None,
            Err(e) => properties_error(ps@) == Some(e@),
        },
{
    assert(ps@.skip(0) =~= ps@);
    let mut i: usize = 0;
    while i < ps.len()
        invariant
            i <= ps.len(),
            properties_error(ps@) == properties_error(ps@.skip(i as int)),
        decreases ps.len() - i,
    {
        let ghost t = ps@.skip(i as int);
        assert(t[0] == ps@[i as int]);
        assert(t.drop_first() =~= ps@.skip(i as int + 1));
        match check_property_schema(ps[i].0.as_str(), &ps[i].1) {
            Err(e) => return Err(e),
            Ok(()) => {},
        }
        i = i + 1;
    }
    Ok(())
}

fn read_required(es: &Vec<(String, JsonTree)>) -> (r: Result<Vec<String>, String>)
    ensures
        match r {
            Ok(v) => required_fields(es@) == Ok::<Seq<Seq<char>>, Seq<char>>(v@.map_values(|s: String| s@)),
            Err(e) => required_fields(es@) == Err::<Seq<Seq<char>>, Seq<char>>(e@),
        },
{
    match get(es, "required") {
        None => {
            let v: Vec<String> = Vec::new();
            assert(v@.map_values(|s: String| s@) =~= Seq::<Seq<char>>::empty());
            Ok(v)
        },
        Some(JsonTree::Array(xs)) => {
            let mut out: Vec<String> = Vec::new();
            proof {
                assert(xs@.skip(0) =~= xs@);
                assert(out@.map_values(|s: String| s@) =~= Seq::<Seq<char>>::empty());
                match required_names(xs@) {
                    Ok(r) => assert(Seq::<Seq<char>>::empty() + r =~= r),
                    Err(_) => {},
                }
            }
            let mut i: usize = 0;
            while i < xs.len()
                invariant
                    i <= xs.len(),
                    required_fields(es@) == required_names(xs@),
                    required_names(xs@) == match required_names(xs@.skip(i as int)) {
                        Ok(r) => Ok(out@.map_values(|s: String| s@) + r),
                        Err(e) => Err(e),
                    },
                decreases xs.len() - i,
            {
                let ghost t = xs@.skip(i as int);
                assert(t[0] == xs@[i as int]);
                assert(t.drop_first() =~= xs@.skip(i as int + 1));
                match &xs[i] {
                    JsonTree::Str(k) => {
                        let ghost prev = out@.map_values(|s: String| s@);
                        out.push(k.clone());
                        proof {
                            assert(out@.map_values(|s: String| s@) =~= prev.push(k@));
                            match required_names(xs@.skip(i as int + 1)) {
                                Ok(r) => assert(prev + (seq![k@] + r) =~= prev.push(k@) + r),
                                Err(_) => {},
                            }
                        }
                    },
                    _ => return Err(owned("required entries must be strings")),
                }
                i = i + 1;
            }
            assert(xs@.skip(xs.len() as int) =~= Seq::<JsonTree>::empty());
            assert(out@.map_values(|s: String| s@) + Seq::<Seq<char>>::empty() =~= out@.map_values(|s: String| s@));
            Ok(out)
        },
        Some(_) => Err(owned("required must be array")),
    }
}

fn find_absent(keys: &Vec<String>, es: &Vec<(String, JsonTree)>) -> (r: Option<String>)
    ensures
        match r {
            Some(k) => first_absent(keys@.map_values(|s: String| s@), es@) == Some(k@),
            None => first_absent(keys@.map_values(|s: String| s@), es@) is None,
        },
{
    let ghost kv = keys@.map_values(|s: String| s@);
    assert(kv.skip(0) =~= kv);
    let mut i: usize = 0;
    while i < keys.len()
        invariant
            i <= keys.len(),
            kv == keys@.map_values(|s: String| s@),
            first_absent(kv, es@) == first_absent(kv.skip(i as int), es@),
        decreases keys.len() - i,
    {
        let ghost t = kv.skip(i as int);
        assert(t[0] == keys@[i as int]@);
        assert(t.drop_first() =~= kv.skip(i as int + 1));
        if find(es, keys[i].as_str()).is_none() {
            return Some(keys[i].clone());
        }
        i = i + 1;
    }
    None
}

/// Checks a package-skill input schema (a tree).
pub fn check_input_schema(schema: &JsonTree) -> (r: Result<(), String>)
    ensures
        match r {
            Ok(()) => input_schema_error(*schema) is None,
            Err(e) => input_schema_error(*schema) == Some(e@),
        },
{
    let entries = match schema {
        JsonTree::Object(es) => es,
        _ => return Err(owned("schema must be object")),
    };
    let is_object = match get(entries, "type") {
        Some(JsonTree::Str(t)) => str_eq(t.as_str(), "object"),
        _ => true,
    };
    if !is_object {
        return Err(owned("schema type must be object"));
    }
    let props: Option<&Vec<(String, JsonTree)>> = match get(entries, "properties") {
        None => None,
        Some(JsonTree::Object(ps)) => Some(ps),
        Some(_) => return Err(owned("properties must be object")),
    };
    match props {
        Some(ps) => match check_properties(ps) {
            Err(e) => return Err(e),
            Ok(()) => {},
        },
        None => {},
    }
    let required = match read_required(entries) {
        Err(e) => return Err(e),
        Ok(r) => r,
    };
    if required.len() > 0 {
        match props {
            None => return Err(owned("required fields require properties definitions")),
            Some(ps) => match find_absent(&required, ps) {
                Some(k) => {
                    let mut e = owned("required field not declared in properties: ");
                    push_str(&mut e, k.as_str());
                    return Err(e);
                },
                None => {},
            },
        }
    }
    match get(entries, "additionalProperties") {
        Some(JsonTree::Bool(_)) | None => Ok(()),
        Some(_) => Err(owned("additionalProperties must be boolean")),
    }
}

fn check_input_value(name: &str, ps: &JsonTree, v: &JsonTree) -> (r: Result<(), String>)
    ensures
        match r {
            Ok(()) => input_value_error(name@, *ps, *v) is None,
            Err(e) => input_value_error(name@, *ps, *v) == Some(e@),
        },
{
    let es = match ps {
        JsonTree::Object(es) => es,
        _ => return Err(concat3("property schema for ", name, " must be object")),
    };
    let typ: String = match get(es, "type") {
        Some(JsonTree::Str(t)) => t.clone(),
        _ => owned("string"),
    };
    let t = typ.as_str();
    let ok = if str_eq(t, "string") {
        matches!(v, JsonTree::Str(_))
    } else if str_eq(t, "integer") {
        match v {
            JsonTree::Number(JsonNumber::Float(_)) => false,
            JsonTree::Number(_) => true,
            _ => false,
        }
    } else if str_eq(t, "number") {
        matches!(v, JsonTree::Number(_))
    } else if str_eq(t, "boolean") {
        matches!(v, JsonTree::Bool(_))
    } else if str_eq(t, "object") {
        matches!(v, JsonTree::Object(_))
    } else if str_eq(t, "array") {
        matches!(v, JsonTree::Array(_))
    } else {
        false
    };
    if ok {
        Ok(())
    } else {
        let mut e = concat3("invalid type for ", name, ": expected ");
        push_str(&mut e, t);
        Err(e)
    }
}

/// Checks an input (a tree) against a package-skill schema (a tree).
pub fn check_input(schema: &JsonTree, input: &JsonTree) -> (r: Result<(), String>)
    ensures
        match r {
            Ok(()) => input_error(*schema, *input) is None,
            Err(e) => input_error(*schema, *input) == Some(e@),
        },
{
    match check_input_schema(schema) {
        Err(e) => return Err(e),
        Ok(()) => {},
    }
    let entries = match schema {
        JsonTree::Object(es) => es,
        _ => return Err(owned("schema must be object")),
    };
    let vals = match input {
        JsonTree::Object(vs) => vs,
        _ => return Err(owned("input must be object")),
    };
    let props: Option<&Vec<(String, JsonTree)>> = match get(entries, "properties") {
        Some(JsonTree::Object(ps)) => Some(ps),
        _ => None,
    };
    let required = match read_required(entries) {
        Ok(r) => r,
        Err(_) => Vec::new(),
    };
    proof {
        if required_fields(entries@) is Err {
            assert(required@.map_values(|s: String| s@) =~= Seq::<Seq<char>>::empty());
        }
    }
    match find_absent(&required, vals) {
        Some(k) => {
            let mut e = owned("missing required field: ");
            push_str(&mut e, k.as_str());
            return Err(e);
        },
        None => {},
    }
    let additional = match get(entries, "additionalProperties") {
        Some(JsonTree::Bool(b)) => *b,
        _ => true,
    };
    let ghost pv: Option<Seq<(String, JsonTree)>> = match props {
        Some(ps) => Some(ps@),
        None => None,
    };
    let ghost rest: Option<Seq<char>> = match pv {
        Some(ps) => values_error(ps, vals@),
        None => None,
    };
    if !additional {
        assert(vals@.skip(0) =~= vals@);
        assert(input_error(*schema, *input) == match first_undeclared(vals@, pv) {
            Some(k) => Some("unexpected field: "@ + k),
            None => rest,
        });
        let mut i: usize = 0;
        while i < vals.len()
            invariant
                i <= vals.len(),
                pv == match props {
                    Some(ps) => Some(ps@),
                    None => None::<Seq<(String, JsonTree)>>,
                },
                first_undeclared(vals@, pv) == first_undeclared(vals@.skip(i as int), pv),
                input_error(*schema, *input) == match first_undeclared(vals@, pv) {
                    Some(k) => Some("unexpected field: "@ + k),
                    None => rest,
                },
            decreases vals.len() - i,
        {
            let ghost t = vals@.skip(i as int);
            assert(t[0] == vals@[i as int]);
            assert(t.drop_first() =~= vals@.skip(i as int + 1));
            let undeclared = match props {
                None => true,
                Some(ps) => find(ps, vals[i].0.as_str()).is_none(),
            };
            if undeclared {
                let mut e = owned("unexpected field: ");
                push_str(&mut e, vals[i].0.as_str());
                return Err(e);
            }
            i = i + 1;
        }
    }
    match props {
        Some(ps) => {
            assert(ps@.skip(0) =~= ps@);
            assert(input_error(*schema, *input) == values_error(ps@, vals@));
            let mut i: usize = 0;
            while i < ps.len()
                invariant
                    i <= ps.len(),
                    input_error(*schema, *input) == values_error(ps@, vals@),
                    values_error(ps@, vals@) == values_error(ps@.skip(i as int), vals@),
                decreases ps.len() - i,
            {
                let ghost t = ps@.skip(i as int);
                assert(t[0] == ps@[i as int]);
                assert(t.drop_first() =~= ps@.skip(i as int + 1));
                match get(vals, ps[i].0.as_str()) {
                    Some(v) => match check_input_value(ps[i].0.as_str(), &ps[i].1, v) {
                        Err(e) => return Err(e),
                        Ok(()) => {},
                    },
                    None => {},
                }
                i = i + 1;
            }
            Ok(())
        },
        None => Ok(()),
    }
}

/// Validates the supported subset of JSON Schema accepted for package-skill
/// tool inputs.
pub fn validate_package_skill_input_schema(schema: &serde_json::Value) -> (r: Result<(), String>)
    ensures
        match r {
            Ok(()) => input_schema_error(json_tree_of(*schema)) is None,
            Err(e) => input_schema_error(json_tree_of(*schema)) == Some(e@),
        },
{
    let s = json_tree(schema);
    check_input_schema(&s)
}

/// Validates a tool input against a package-skill schema.
pub fn validate_package_skill_input(schema: &serde_json::Value, input: &serde_json::Value) -> (r: Result<(), String>)
    ensures
        match r {
            Ok(()) => input_error(json_tree_of(*schema), json_tree_of(*input)) is None,
            Err(e) => input_error(json_tree_of(*schema), json_tree_of(*input)) == Some(e@),
        },
{
    let s = json_tree(schema);
    let i = json_tree(input);
    check_input(&s, &i)
}

} // verus!
