//! The JSON value tree, its mathematical model, and equality that goes by the value of
//! numbers.

use vstd::prelude::*;
use crate::foreign::str_eq;
use crate::number::Number;

verus! {

/// The mathematical model of a JSON document: what a `Json` tree denotes.
pub enum JsonValue {
    Null,
    Bool(bool),
    Number(Number),
    String(Seq<char>),
    Array(Seq<JsonValue>),
    /// The members in the order in which they are walked.
    Object(Seq<(Seq<char>, JsonValue)>),
}

/// A JSON document held in memory.
#[derive(Debug)]
pub enum Json {
    Null,
    Bool(bool),
    Number(Number),
    String(String),
    Array(Vec<Json>),
    /// The members in the order in which they are walked. Looking a name up finds its
    /// first member.
    Object(Vec<(String, Json)>),
}

impl View for Json {
    type V = JsonValue;

    open spec fn view(&self) -> JsonValue
        decreases self,
    {
        match self {
            Json::Null => JsonValue::Null,
            Json::Bool(b) => JsonValue::Bool(*b),
            Json::Number(n) => JsonValue::Number(*n),
            Json::String(s) => JsonValue::String(s@),
            Json::Array(items) => JsonValue::Array(json_views(items@)),
            Json::Object(members) => JsonValue::Object(member_views(members@)),
        }
    }
}

/// The models of a sequence of documents.
pub open spec fn json_views(items: Seq<Json>) -> Seq<JsonValue>
    decreases items,
{
    Seq::new(
        items.len(),
        |i: int|
            if 0 <= i < items.len() {
                items[i]@
            } else {
                JsonValue::Null
            },
    )
}

/// The models of a sequence of members.
pub open spec fn member_views(members: Seq<(String, Json)>) -> Seq<(Seq<char>, JsonValue)>
    decreases members,
{
    Seq::new(
        members.len(),
        |i: int|
            if 0 <= i < members.len() {
                (members[i].0@, members[i].1@)
            } else {
                (Seq::empty(), JsonValue::Null)
            },
    )
}

/// The value of the first member named `key` from position `from` on.
pub open spec fn lookup_from(members: Seq<(Seq<char>, JsonValue)>, key: Seq<char>, from: int) -> Option<
    JsonValue,
>
    decreases members.len() - from,
{
    if from < 0 || from >= members.len() {
        None
    } else if members[from].0 == key {
        Some(members[from].1)
    } else {
        lookup_from(members, key, from + 1)
    }
}

impl JsonValue {
    /// The elements of an array; empty for anything else.
    pub open spec fn items(self) -> Seq<JsonValue> {
        match self {
            JsonValue::Array(items) => items,
            _ => Seq::empty(),
        }
    }

    /// The members of an object; empty for anything else.
    pub open spec fn members(self) -> Seq<(Seq<char>, JsonValue)> {
        match self {
            JsonValue::Object(members) => members,
            _ => Seq::empty(),
        }
    }

    /// The value of the member named `key`: the first one, if the object has any.
    pub open spec fn get(self, key: Seq<char>) -> Option<JsonValue> {
        lookup_from(self.members(), key, 0)
    }

    /// Whether the object has a member named `key`.
    pub open spec fn has_key(self, key: Seq<char>) -> bool {
        self.get(key) is Some
    }

    /// Whether nothing in the document is out of what a JSON parser hands out: numbers
    /// are well formed and no object has two members of one name.
    pub open spec fn wf(self) -> bool
        decreases self,
    {
        match self {
            JsonValue::Number(n) => n.wf(),
            JsonValue::Array(items) => forall|i: int| 0 <= i < items.len() ==> (#[trigger] items[i]).wf(),
            JsonValue::Object(members) => {
                &&& forall|i: int| 0 <= i < members.len() ==> (#[trigger] members[i]).1.wf()
                &&& forall|i: int, j: int|
                    0 <= i < j < members.len() ==> (#[trigger] members[i]).0 != (
                    #[trigger] members[j]).0
            },
            _ => true,
        }
    }
}

/// Equality of documents as JSON Schema has it. Numbers are equal when they are equal as
/// doubles, whatever their encoding; arrays element by element; objects when they have
/// as many members and each member of the first has an equal one of its name in the
/// second.
pub open spec fn json_equal_model(a: JsonValue, b: JsonValue) -> bool
    decreases a,
{
    match (a, b) {
        (JsonValue::Null, JsonValue::Null) => true,
        (JsonValue::Bool(x), JsonValue::Bool(y)) => x == y,
        (JsonValue::Number(x), JsonValue::Number(y)) => x.key() == y.key(),
        (JsonValue::String(x), JsonValue::String(y)) => x == y,
        (JsonValue::Array(x), JsonValue::Array(y)) => {
            &&& x.len() == y.len()
            &&& forall|i: int| 0 <= i < x.len() ==> json_equal_model(#[trigger] x[i], y[i])
        },
        (JsonValue::Object(x), JsonValue::Object(y)) => {
            &&& x.len() == y.len()
            &&& forall|i: int| 0 <= i < x.len() ==> member_matches(#[trigger] x[i], y)
        },
        _ => false,
    }
}

/// Whether `others` has a member of this member's name with an equal value.
pub open spec fn member_matches(member: (Seq<char>, JsonValue), others: Seq<(Seq<char>, JsonValue)>) -> bool
    decreases member, 0nat,
{
    match lookup_from(others, member.0, 0) {
        Some(v) => json_equal_model(member.1, v),
        None => false,
    }
}

impl Json {
    /// The value of the member named `key`, if `self` is an object that has one.
    #[verifier::loop_isolation(false)]
    pub fn get(&self, key: &str) -> (r: Option<&Json>)
        ensures
            match r {
                Some(v) => self@.get(key@) == Some(v@),
                None => self@.get(key@) is None,
            },
    {
        match self {
            Json::Object(members) => {
                assert(self@.members() =~= member_views(members@));
                let mut i: usize = 0;
                while i < members.len()
                    invariant
                        i <= members.len(),
                        lookup_from(self@.members(), key@, 0) == lookup_from(
                            self@.members(),
                            key@,
                            i as int,
                        ),
                    decreases members.len() - i,
                {
                    if str_eq(members[i].0.as_str(), key) {
                        return Some(&members[i].1);
                    }
                    i += 1;
                }
                None
            },
            _ => None,
        }
    }

    /// Whether `self` is an object with a member named `key`.
    pub fn contains_key(&self, key: &str) -> (r: bool)
        ensures
            r == self@.has_key(key@),
    {
        self.get(key).is_some()
    }

    /// The elements, if `self` is an array.
    pub fn as_array(&self) -> (r: Option<&Vec<Json>>)
        ensures
            match r {
                Some(items) => self@ == JsonValue::Array(json_views(items@)),
                None => !(self@ is Array),
            },
    {
        match self {
            Json::Array(items) => Some(items),
            _ => None,
        }
    }

    /// The members, if `self` is an object.
    pub fn as_object(&self) -> (r: Option<&Vec<(String, Json)>>)
        ensures
            match r {
                Some(members) => self@ == JsonValue::Object(member_views(members@)),
                None => !(self@ is Object),
            },
    {
        match self {
            Json::Object(members) => Some(members),
            _ => None,
        }
    }

    /// The text, if `self` is a string.
    pub fn as_str(&self) -> (r: Option<&str>)
        ensures
            match r {
                Some(s) => self@ == JsonValue::String(s@),
                None => !(self@ is String),
            },
    {
        match self {
            Json::String(s) => Some(s.as_str()),
            _ => None,
        }
    }

    /// The number, if `self` is one.
    pub fn as_number(&self) -> (r: Option<Number>)
        ensures
            match r {
                Some(n) => self@ == JsonValue::Number(n),
                None => !(self@ is Number),
            },
    {
        match self {
            Json::Number(n) => Some(*n),
            _ => None,
        }
    }

    /// The truth value, if `self` is a boolean.
    pub fn as_bool(&self) -> (r: Option<bool>)
        ensures
            match r {
                Some(b) => self@ == JsonValue::Bool(b),
                None => !(self@ is Bool),
            },
    {
        match self {
            Json::Bool(b) => Some(*b),
            _ => None,
        }
    }

    /// Whether `self` is null.
    pub fn is_null(&self) -> (r: bool)
        ensures
            r == (self@ is Null),
    {
        match self {
            Json::Null => true,
            _ => false,
        }
    }

    /// Whether `self` is an object.
    pub fn is_object(&self) -> (r: bool)
        ensures
            r == (self@ is Object),
    {
        match self {
            Json::Object(_) => true,
            _ => false,
        }
    }
}

impl Clone for Json {
    /// A copy of the whole tree.
    #[verifier::loop_isolation(false)]
    fn clone(&self) -> (r: Json)
        ensures
            r@ == self@,
        decreases self,
    {
        match self {
            Json::Null => Json::Null,
            Json::Bool(b) => Json::Bool(*b),
            Json::Number(n) => Json::Number(*n),
            Json::String(s) => Json::String(s.clone()),
            Json::Array(items) => {
                let mut out: Vec<Json> = Vec::new();
                let mut i: usize = 0;
                while i < items.len()
                    invariant
                        i <= items.len(),
                        out@.len() == i,
                        forall|k: int| 0 <= k < i ==> out@[k]@ == items@[k]@,
                    decreases items.len() - i,
                {
                    out.push(items[i].clone());
                    i += 1;
                }
                assert(Json::Array(out)@->Array_0 =~= self@->Array_0);
                Json::Array(out)
            },
            Json::Object(members) => {
                let mut out: Vec<(String, Json)> = Vec::new();
                let mut i: usize = 0;
                while i < members.len()
                    invariant
                        i <= members.len(),
                        out@.len() == i,
                        forall|k: int|
                            0 <= k < i ==> out@[k].0@ == members@[k].0@ && out@[k].1@
                                == members@[k].1@,
                    decreases members.len() - i,
                {
                    out.push((members[i].0.clone(), members[i].1.clone()));
                    i += 1;
                }
                assert(Json::Object(out)@->Object_0 =~= self@->Object_0);
                Json::Object(out)
            },
        }
    }
}

/// Where no member has a name, looking it up finds nothing.
pub proof fn lemma_lookup_absent(members: Seq<(Seq<char>, JsonValue)>, key: Seq<char>, from: int)
    requires
        0 <= from,
        forall|i: int| 0 <= i < members.len() ==> (#[trigger] members[i]).0 != key,
    ensures
        lookup_from(members, key, from) is None,
    decreases members.len() - from,
{
    if from < members.len() {
        lemma_lookup_absent(members, key, from + 1);
    }
}

/// What looking a name up finds is the value of a member of that name.
pub proof fn lemma_lookup_found(members: Seq<(Seq<char>, JsonValue)>, key: Seq<char>, from: int) -> (i: int)
    requires
        0 <= from,
        lookup_from(members, key, from) is Some,
    ensures
        from <= i < members.len(),
        members[i].0 == key,
        lookup_from(members, key, from) == Some(members[i].1),
    decreases members.len() - from,
{
    if members[from].0 == key {
        from
    } else {
        lemma_lookup_found(members, key, from + 1)
    }
}

/// Where no two members have one name, looking up the name of a member finds its value.
pub proof fn lemma_lookup_of_member(members: Seq<(Seq<char>, JsonValue)>, i: int, from: int)
    requires
        0 <= from <= i < members.len(),
        forall|a: int, b: int|
            0 <= a < b < members.len() ==> (#[trigger] members[a]).0 != (#[trigger] members[b]).0,
    ensures
        lookup_from(members, members[i].0, from) == Some(members[i].1),
    decreases i - from,
{
    if from < i {
        lemma_lookup_of_member(members, i, from + 1);
    }
}

} // verus!
