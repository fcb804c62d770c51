//! JSON pointers: paths into a document, written `/a/0/b`, with `~1` for a slash and
//! `~0` for a tilde inside a step.

use vstd::prelude::*;
use vstd::string::*;
use crate::json::{json_views, Json, JsonValue};

verus! {

/// The step that starts at position `i`, unescaped: the characters up to the next slash
/// or the end, with `~1` read as a slash and `~0` as a tilde.
pub open spec fn token_from(p: Seq<char>, i: int) -> Seq<char>
    decreases p.len() - i,
{
    if i < 0 || i >= p.len() || p[i] == '/' {
        Seq::empty()
    } else if p[i] == '~' && i + 1 < p.len() && p[i + 1] == '1' {
        seq!['/'] + token_from(p, i + 2)
    } else if p[i] == '~' && i + 1 < p.len() && p[i + 1] == '0' {
        seq!['~'] + token_from(p, i + 2)
    } else {
        seq![p[i]] + token_from(p, i + 1)
    }
}

/// Where the step that starts at position `i` ends: at the next slash, or at the end.
pub open spec fn token_end(p: Seq<char>, i: int) -> int
    decreases p.len() - i,
{
    if i < 0 || i >= p.len() || p[i] == '/' {
        i
    } else if p[i] == '~' && i + 1 < p.len() && (p[i + 1] == '1' || p[i + 1] == '0') {
        token_end(p, i + 2)
    } else {
        token_end(p, i + 1)
    }
}

/// The value of a decimal digit.
pub open spec fn digit_value(c: char) -> Option<nat> {
    if c == '0' {
        Some(0)
    } else if c == '1' {
        Some(1)
    } else if c == '2' {
        Some(2)
    } else if c == '3' {
        Some(3)
    } else if c == '4' {
        Some(4)
    } else if c == '5' {
        Some(5)
    } else if c == '6' {
        Some(6)
    } else if c == '7' {
        Some(7)
    } else if c == '8' {
        Some(8)
    } else if c == '9' {
        Some(9)
    } else {
        None
    }
}

/// The number that the first `n` characters write in decimal, if all of them are digits.
pub open spec fn digits_value(t: Seq<char>, n: nat) -> Option<nat>
    decreases n,
{
    if n == 0 {
        Some(0)
    } else {
        match (digits_value(t, (n - 1) as nat), digit_value(t[n - 1])) {
            (Some(v), Some(d)) => Some(10 * v + d),
            _ => None,
        }
    }
}

/// The array index that a step writes: decimal digits without a sign and without a
/// leading zero, but for `0` itself.
pub open spec fn index_of(t: Seq<char>) -> Option<nat> {
    if t.len() == 0 || (t[0] == '0' && t.len() != 1) {
        None
    } else {
        digits_value(t, t.len())
    }
}

/// One step into a document: the member of that name in an object, the element of that
/// index in an array, nothing in anything else.
pub open spec fn step_into(doc: JsonValue, token: Seq<char>) -> Option<JsonValue> {
    match doc {
        JsonValue::Object(_) => doc.get(token),
        JsonValue::Array(items) => match index_of(token) {
            Some(i) => if i < items.len() {
                Some(items[i as int])
            } else {
                None
            },
            None => None,
        },
        _ => None,
    }
}

/// The part of `doc` that the steps from position `start` on lead to.
pub open spec fn walk_tokens(doc: JsonValue, p: Seq<char>, start: int) -> Option<JsonValue>
    decreases p.len() - start,
{
    if start < 0 || start > p.len() {
        None
    } else {
        match step_into(doc, token_from(p, start)) {
            None => None,
            Some(next) => if token_end(p, start) >= p.len() {
                Some(next)
            } else if token_end(p, start) < start {
                None
            } else {
                walk_tokens(next, p, token_end(p, start) + 1)
            },
        }
    }
}

/// The part of `doc` that a JSON pointer names. The empty pointer names the whole
/// document; any other begins with a slash and walks one step per slash.
pub open spec fn pointer_model(doc: JsonValue, p: Seq<char>) -> Option<JsonValue> {
    if p.len() == 0 {
        Some(doc)
    } else if p[0] != '/' {
        None
    } else {
        walk_tokens(doc, p, 1)
    }
}

proof fn lemma_token_end_bounds(p: Seq<char>, i: int)
    requires
        0 <= i <= p.len(),
    ensures
        i <= token_end(p, i) <= p.len(),
    decreases p.len() - i,
{
    if i >= p.len() || p[i] == '/' {
    } else if p[i] == '~' && i + 1 < p.len() && (p[i + 1] == '1' || p[i + 1] == '0') {
        lemma_token_end_bounds(p, i + 2);
    } else {
        lemma_token_end_bounds(p, i + 1);
    }
}

fn digit_of(c: char) -> (r: Option<usize>)
    ensures
        match r {
            Some(d) => digit_value(c) == Some(d as nat) && d < 10,
            None => digit_value(c) is None,
        },
{
    if c == '0' {
        Some(0)
    } else if c == '1' {
        Some(1)
    } else if c == '2' {
        Some(2)
    } else if c == '3' {
        Some(3)
    } else if c == '4' {
        Some(4)
    } else if c == '5' {
        Some(5)
    } else if c == '6' {
        Some(6)
    } else if c == '7' {
        Some(7)
    } else if c == '8' {
        Some(8)
    } else if c == '9' {
        Some(9)
    } else {
        None
    }
}

proof fn lemma_digits_none_stays(t: Seq<char>, n: nat, m: nat)
    requires
        n <= m,
        digits_value(t, n) is None,
    ensures
        digits_value(t, m) is None,
    decreases m,
{
    if n < m {
        lemma_digits_none_stays(t, n, (m - 1) as nat);
    }
}

proof fn lemma_digits_grow(t: Seq<char>, n: nat, m: nat)
    requires
        n <= m,
        digits_value(t, n) is Some,
        digits_value(t, m) is Some,
    ensures
        digits_value(t, n)->0 <= digits_value(t, m)->0,
    decreases m,
{
    if n < m {
        if digits_value(t, (m - 1) as nat) is None {
        } else {
            lemma_digits_grow(t, n, (m - 1) as nat);
        }
    }
}

/// The index below `len` that a step writes, if it writes one.
fn parse_index(token: &str, len: usize) -> (r: Option<usize>)
    ensures
        match r {
            Some(i) => index_of(token@) == Some(i as nat) && i < len,
            None => match index_of(token@) {
                Some(i) => i >= len,
                None => true,
            },
        },
{
    let n = token.unicode_len();
    if n == 0 {
        return None;
    }
    if token.get_char(0) == '0' && n != 1 {
        return None;
    }
    let mut value: usize = 0;
    let mut i: usize = 0;
    while i < n
        invariant
            i <= n,
            n == token@.len(),
            digits_value(token@, i as nat) == Some(value as nat),
            i > 0 ==> value < len,
        decreases n - i,
    {
        match digit_of(token.get_char(i)) {
            None => {
                proof {
                    assert(digits_value(token@, (i + 1) as nat) is None);
                    lemma_digits_none_stays(token@, (i + 1) as nat, n as nat);
                }
                return None;
            },
            Some(d) => {
                let next: u128 = 10 * (value as u128) + d as u128;
                if next >= len as u128 {
                    proof {
                        assert(digits_value(token@, (i + 1) as nat) == Some(next as nat));
                        if digits_value(token@, n as nat) is Some {
                            lemma_digits_grow(token@, (i + 1) as nat, n as nat);
                        }
                    }
                    return None;
                }
                value = next as usize;
            },
        }
        i += 1;
    }
    Some(value)
}

/// The step that starts at character `start` of the pointer, unescaped, and the place
/// where it ends.
fn read_token(pointer: &str, start: usize) -> (r: (String, usize))
    requires
        start <= pointer@.len(),
    ensures
        r.0@ == token_from(pointer@, start as int),
        r.1 == token_end(pointer@, start as int),
        start <= r.1 <= pointer@.len(),
{
    let n = pointer.unicode_len();
    let mut token = String::new();
    let mut i: usize = start;
    proof {
        reveal_strlit("/");
        reveal_strlit("~");
        lemma_token_end_bounds(pointer@, start as int);
    }
    loop
        invariant
            start <= i <= n,
            n == pointer@.len(),
            "/"@ == seq!['/'],
            "~"@ == seq!['~'],
            token_from(pointer@, start as int) == token@ + token_from(pointer@, i as int),
            token_end(pointer@, start as int) == token_end(pointer@, i as int),
        ensures
            i >= n || pointer@[i as int] == '/',
        decreases n - i,
    {
        if i >= n {
            break;
        }
        let c = pointer.get_char(i);
        if c == '/' {
            break;
        }
        let ghost before = token@;
        if c == '~' && i + 1 < n && pointer.get_char(i + 1) == '1' {
            token.append("/");
            assert(token@ + token_from(pointer@, i + 2) =~= before + token_from(pointer@, i as int));
            i += 2;
        } else if c == '~' && i + 1 < n && pointer.get_char(i + 1) == '0' {
            token.append("~");
            assert(token@ + token_from(pointer@, i + 2) =~= before + token_from(pointer@, i as int));
            i += 2;
        } else {
            token.append(pointer.substring_char(i, i + 1));
            assert(pointer@.subrange(i as int, i + 1) =~= seq![c]);
            assert(token@ + token_from(pointer@, i + 1) =~= before + token_from(pointer@, i as int));
            i += 1;
        }
    }
    assert(token@ + token_from(pointer@, i as int) =~= token@);
    (token, i)
}

impl Json {
    /// Looks up a value by a JSON pointer: the part of the document that the pointer
    /// names, if there is one.
    pub fn pointer(&self, pointer: &str) -> (r: Option<&Json>)
        ensures
            match r {
                Some(v) => pointer_model(self@, pointer@) == Some(v@),
                None => pointer_model(self@, pointer@) is None,
            },
    {
        let n = pointer.unicode_len();
        if n == 0 {
            return Some(self);
        }
        if pointer.get_char(0) != '/' {
            return None;
        }
        let mut target: &Json = self;
        let mut start: usize = 1;
        loop
            invariant
                1 <= start <= n,
                n == pointer@.len(),
                pointer_model(self@, pointer@) == walk_tokens(target@, pointer@, start as int),
            decreases n - start,
        {
            let (token, end) = read_token(pointer, start);
            let next: Option<&Json> = match target {
                Json::Object(_) => target.get(token.as_str()),
                Json::Array(items) => {
                    assert(target@ == JsonValue::Array(json_views(items@)));
                    match parse_index(token.as_str(), items.len()) {
                        Some(i) => {
                            assert(json_views(items@)[i as int] == items@[i as int]@);
                            Some(&items[i])
                        },
                        None => None,
                    }
                },
                _ => None,
            };
            assert(match next {
                Some(v) => step_into(target@, token@) == Some(v@),
                None => step_into(target@, token@) is None,
            });
            match next {
                None => {
                    return None;
                },
                Some(value) => {
                    if end >= n {
                        return Some(value);
                    }
                    target = value;
                    start = end + 1;
                },
            }
        }
    }
}

} // verus!
