//! Small helpers of the validators.

use vstd::prelude::*;
use vstd::string::*;
use crate::foreign::str_eq;
use crate::json::{json_equal_model, json_views, member_matches, member_views, Json, JsonValue};
use crate::text::{format_list_model, quoted, string_views};

verus! {

/// The object form of a boolean schema: `true` is the empty schema, `false` the schema
/// `{"not": {}}`. Any other schema stands for itself.
pub open spec fn object_schema(schema: JsonValue) -> JsonValue {
    match schema {
        JsonValue::Bool(true) => JsonValue::Object(Seq::empty()),
        JsonValue::Bool(false) => JsonValue::Object(seq![("not"@, JsonValue::Object(Seq::empty()))]),
        _ => schema,
    }
}

/// The schema in object form: a boolean becomes the object that accepts everything or
/// nothing, anything else is copied.
pub fn bool_to_object_schema(schema: &Json) -> (r: Json)
    ensures
        r@ == object_schema(schema@),
{
    match schema {
        Json::Bool(b) => {
            if *b {
                let members: Vec<(String, Json)> = Vec::new();
                assert(member_views(members@) =~= Seq::empty());
                Json::Object(members)
            } else {
                let inner: Vec<(String, Json)> = Vec::new();
                assert(member_views(inner@) =~= Seq::empty());
                let mut members: Vec<(String, Json)> = Vec::new();
                members.push(("not".to_string(), Json::Object(inner)));
                assert(member_views(members@) =~= seq![("not"@, JsonValue::Object(Seq::empty()))]);
                Json::Object(members)
            }
        },
        _ => schema.clone(),
    }
}

/// The alternatives that a value lists: the elements of an array, or the value alone.
pub open spec fn alternatives(value: JsonValue) -> Seq<JsonValue> {
    match value {
        JsonValue::Array(items) => items,
        _ => seq![value],
    }
}

/// The models of a sequence of borrowed documents.
pub open spec fn borrowed_views(items: Seq<&Json>) -> Seq<JsonValue> {
    Seq::new(items.len(), |i: int| items[i]@)
}

/// The elements of an array, or the value alone where it is no array.
pub fn iter_or_once<'a>(instance: &'a Json) -> (r: Vec<&'a Json>)
    ensures
        borrowed_views(r@) == alternatives(instance@),
{
    let mut out: Vec<&'a Json> = Vec::new();
    match instance.as_array() {
        Some(items) => {
            let mut i: usize = 0;
            while i < items.len()
                invariant
                    i <= items.len(),
                    out@.len() == i,
                    forall|k: int| 0 <= k < i ==> out@[k]@ == items@[k]@,
                decreases items.len() - i,
            {
                out.push(&items[i]);
                i += 1;
            }
            assert(borrowed_views(out@) =~= json_views(items@));
        },
        None => {
            out.push(instance);
            assert(borrowed_views(out@) =~= seq![instance@]);
        },
    }
    out
}

/// Joins the items into a list for a message: each between double quotes, separated by
/// `", "`.
pub fn format_list(items: &Vec<String>) -> (r: String)
    ensures
        r@ == format_list_model(string_views(items@)),
{
    let mut out = String::new();
    let mut i: usize = 0;
    while i < items.len()
        invariant
            i <= items.len(),
            out@ == format_list_model(string_views(items@).take(i as int)),
        decreases items.len() - i,
    {
        let ghost prefix = string_views(items@).take(i as int);
        let ghost next = string_views(items@).take(i as int + 1);
        if i > 0 {
            out.append(", ");
        }
        out.append("\"");
        out.append(items[i].as_str());
        out.append("\"");
        proof {
            assert(next.drop_last() =~= prefix);
            assert(next.last() == items@[i as int]@);
            if i == 0 {
                assert(out@ =~= quoted(next[0]));
            } else {
                assert(out@ =~= format_list_model(prefix) + ", "@ + quoted(next.last()));
            }
        }
        i += 1;
    }
    assert(string_views(items@).take(items.len() as int) =~= string_views(items@));
    out
}

/// Check two JSON values for equality in the way that JSON Schema defines it: two numbers
/// are equal when their values are, whatever their encoding, also inside arrays and
/// objects; the members of an object are compared whatever their order.
#[verifier::loop_isolation(false)]
pub fn json_equal(x: &Json, y: &Json) -> (r: bool)
    ensures
        r == json_equal_model(x@, y@),
    decreases x,
{
    match (x, y) {
        (Json::Null, Json::Null) => true,
        (Json::Bool(a), Json::Bool(b)) => *a == *b,
        (Json::Number(a), Json::Number(b)) => a.same_value(b),
        (Json::String(a), Json::String(b)) => str_eq(a.as_str(), b.as_str()),
        (Json::Array(a), Json::Array(b)) => {
            assert(x@.items() =~= json_views(a@));
            assert(y@.items() =~= json_views(b@));
            if a.len() != b.len() {
                return false;
            }
            let mut i: usize = 0;
            while i < a.len()
                invariant
                    i <= a.len(),
                    a.len() == b.len(),
                    forall|k: int| 0 <= k < i ==> json_equal_model(#[trigger] x@.items()[k], y@.items()[k]),
                decreases a.len() - i,
            {
                if !json_equal(&a[i], &b[i]) {
                    assert(!json_equal_model(x@.items()[i as int], y@.items()[i as int]));
                    return false;
                }
                i += 1;
            }
            true
        },
        (Json::Object(a), Json::Object(b)) => {
            assert(x@.members() =~= member_views(a@));
            assert(y@.members() =~= member_views(b@));
            if a.len() != b.len() {
                return false;
            }
            let mut i: usize = 0;
            while i < a.len()
                invariant
                    i <= a.len(),
                    a.len() == b.len(),
                    forall|k: int| 0 <= k < i ==> member_matches(#[trigger] x@.members()[k], y@.members()),
                decreases a.len() - i,
            {
                let matched = match y.get(a[i].0.as_str()) {
                    Some(v) => json_equal(&a[i].1, v),
                    None => false,
                };
                if !matched {
                    assert(!member_matches(x@.members()[i as int], y@.members()));
                    return false;
                }
                i += 1;
            }
            true
        },
        _ => false,
    }
}

} // verus!
