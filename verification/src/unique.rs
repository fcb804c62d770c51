//! Utility to determine whether a JSON array has all unique elements.

use vstd::prelude::*;
use vstd::string::*;
use vstd::utf8::encode_utf8;
use crate::json::{json_equal_model, json_views, member_views, Json, JsonValue};
use crate::util::json_equal;

verus! {

/// Two to the power 64: hashes are taken modulo it.
pub open spec fn hash_modulus() -> nat {
    0x1_0000_0000_0000_0000
}

/// One step of the hash: `h` made to take in `x`.
pub open spec fn mix(h: nat, x: nat) -> nat {
    (h * 31 + x) % hash_modulus()
}

/// The hash of the first `n` bytes.
pub open spec fn hash_bytes(bytes: Seq<u8>, n: nat) -> nat
    decreases n,
{
    if n == 0 {
        7
    } else {
        mix(hash_bytes(bytes, (n - 1) as nat), bytes[n - 1] as nat)
    }
}

/// The hash of a document. It agrees with `json_equal_model`: a number is hashed by its
/// place among the doubles, so that equal numbers of different encodings hash alike; an
/// array by its elements in order; an object, whose members have no order, by their
/// count.
pub open spec fn hash_model(value: JsonValue) -> nat
    decreases value, 0nat,
{
    match value {
        JsonValue::Null => 0,
        JsonValue::Bool(b) => mix(
            6,
            if b {
                1
            } else {
                0
            },
        ),
        JsonValue::Number(n) => mix(3, (n.key() + 0x8000_0000_0000_0000) as nat),
        JsonValue::String(s) => mix(2, hash_bytes(encode_utf8(s), encode_utf8(s).len())),
        JsonValue::Array(items) => mix(0, hash_items(items, items.len())),
        JsonValue::Object(members) => mix(1, members.len()),
    }
}

/// The hash of the first `n` elements.
pub open spec fn hash_items(items: Seq<JsonValue>, n: nat) -> nat
    decreases items, n,
{
    if n == 0 || n > items.len() {
        1
    } else {
        mix(hash_items(items, (n - 1) as nat), hash_model(items[n - 1]))
    }
}

/// Equal documents have equal hashes: in particular the integer 1 and the double 1.0.
pub proof fn lemma_equal_values_hash_alike(a: JsonValue, b: JsonValue)
    requires
        json_equal_model(a, b),
    ensures
        hash_model(a) == hash_model(b),
    decreases a,
{
    match (a, b) {
        (JsonValue::Array(x), JsonValue::Array(y)) => {
            lemma_equal_items_hash_alike(x, y, x.len());
        },
        _ => {},
    }
}

proof fn lemma_equal_items_hash_alike(x: Seq<JsonValue>, y: Seq<JsonValue>, n: nat)
    requires
        x.len() == y.len(),
        n <= x.len(),
        forall|i: int| 0 <= i < x.len() ==> json_equal_model(#[trigger] x[i], y[i]),
    ensures
        hash_items(x, n) == hash_items(y, n),
    decreases x, n,
{
    if n > 0 {
        lemma_equal_items_hash_alike(x, y, (n - 1) as nat);
        lemma_equal_values_hash_alike(x[n - 1], y[n - 1]);
    }
}

/// Whether no two elements are equal as JSON Schema has it.
pub open spec fn all_distinct(items: Seq<JsonValue>) -> bool {
    forall|i: int, j: int| 0 <= i < j < items.len() ==> !json_equal_model(items[i], items[j])
}

fn mix_step(h: u64, x: u64) -> (r: u64)
    ensures
        r == mix(h as nat, x as nat),
{
    ((h as u128 * 31 + x as u128) % 0x1_0000_0000_0000_0000u128) as u64
}

/// The hash of a document.
#[verifier::loop_isolation(false)]
pub fn hash_value(value: &Json) -> (r: u64)
    ensures
        r == hash_model(value@),
    decreases value,
{
    match value {
        Json::Null => 0,
        Json::Bool(b) => mix_step(
            6,
            if *b {
                1
            } else {
                0
            },
        ),
        Json::Number(n) => {
            let key = n.order_key();
            mix_step(3, (key + 0x8000_0000_0000_0000i128) as u64)
        },
        Json::String(s) => {
            let bytes = s.as_str().as_bytes();
            let mut h: u64 = 7;
            let mut i: usize = 0;
            while i < bytes.len()
                invariant
                    i <= bytes.len(),
                    bytes@ == encode_utf8(s@),
                    h == hash_bytes(bytes@, i as nat),
                decreases bytes.len() - i,
            {
                h = mix_step(h, bytes[i] as u64);
                i += 1;
            }
            mix_step(2, h)
        },
        Json::Array(items) => {
            let mut h: u64 = 1;
            let mut i: usize = 0;
            while i < items.len()
                invariant
                    i <= items.len(),
                    h == hash_items(json_views(items@), i as nat),
                decreases items.len() - i,
            {
                let element = hash_value(&items[i]);
                h = mix_step(h, element);
                i += 1;
            }
            assert(json_views(items@).len() == items.len());
            mix_step(0, h)
        },
        Json::Object(members) => {
            assert(value@.members() == member_views(members@));
            mix_step(1, members.len() as u64)
        },
    }
}

/// Whether the elements are all unique: no two of them are equal as JSON Schema has it,
/// so that the integer 1 and the double 1.0 are the same element.
pub fn has_unique_elements(items: &Vec<Json>) -> (r: bool)
    ensures
        r == all_distinct(json_views(items@)),
{
    let mut hashes: Vec<u64> = Vec::new();
    let mut k: usize = 0;
    while k < items.len()
        invariant
            k <= items.len(),
            hashes@.len() == k,
            forall|m: int| 0 <= m < k ==> hashes@[m] == hash_model(#[trigger] items@[m]@),
        decreases items.len() - k,
    {
        hashes.push(hash_value(&items[k]));
        k += 1;
    }
    let ghost models = json_views(items@);
    let mut j: usize = 0;
    while j < items.len()
        invariant
            j <= items.len(),
            hashes@.len() == items.len(),
            models == json_views(items@),
            forall|m: int| 0 <= m < items.len() ==> hashes@[m] == hash_model(#[trigger] items@[m]@),
            forall|a: int, b: int| 0 <= a < b < j ==> !json_equal_model(models[a], models[b]),
        decreases items.len() - j,
    {
        let mut i: usize = 0;
        while i < j
            invariant
                i <= j < items.len(),
                hashes@.len() == items.len(),
                models == json_views(items@),
                forall|m: int| 0 <= m < items.len() ==> hashes@[m] == hash_model(#[trigger] items@[m]@),
                forall|a: int| 0 <= a < i ==> !json_equal_model(models[a], models[j as int]),
            decreases j - i,
        {
            assert(models[i as int] == items@[i as int]@);
            assert(models[j as int] == items@[j as int]@);
            if hashes[i] == hashes[j] {
                if json_equal(&items[i], &items[j]) {
                    return false;
                }
            } else {
                proof {
                    if json_equal_model(models[i as int], models[j as int]) {
                        lemma_equal_values_hash_alike(models[i as int], models[j as int]);
                    }
                }
            }
            i += 1;
        }
        j += 1;
    }
    true
}

} // verus!
