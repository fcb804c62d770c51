//! Writing a document as indented JSON text, for messages.

use vstd::prelude::*;
use vstd::string::*;
use crate::foreign::push_char;
use crate::json::{json_views, member_views, Json, JsonValue};
use crate::number::number_text;

verus! {

/// How a character stands inside a JSON string: a double quote, a backslash, a line
/// feed, a carriage return and a tab are escaped, every other character stands for
/// itself.
pub open spec fn escaped_char(c: char) -> Seq<char> {
    if c == '"' {
        "\\\""@
    } else if c == '\\' {
        "\\\\"@
    } else if c == '\n' {
        "\\n"@
    } else if c == '\r' {
        "\\r"@
    } else if c == '\t' {
        "\\t"@
    } else {
        seq![c]
    }
}

/// The first `n` characters of a text as they stand inside a JSON string.
pub open spec fn escaped(s: Seq<char>, n: nat) -> Seq<char>
    decreases n,
{
    if n == 0 || n > s.len() {
        Seq::empty()
    } else {
        escaped(s, (n - 1) as nat) + escaped_char(s[n - 1])
    }
}

/// A text as a JSON string: escaped, between double quotes.
pub open spec fn string_text(s: Seq<char>) -> Seq<char> {
    "\""@ + escaped(s, s.len()) + "\""@
}

/// The indentation of a nesting level: two spaces for each.
pub open spec fn margin(level: nat) -> Seq<char>
    decreases level,
{
    if level == 0 {
        Seq::empty()
    } else {
        margin((level - 1) as nat) + "  "@
    }
}

/// The nesting level below `level`. It stops growing at the largest `u64`, which no
/// document in memory reaches.
pub open spec fn deeper(level: nat) -> nat {
    if level < u64::MAX {
        level + 1
    } else {
        level
    }
}

/// A document as JSON text. An array or object that is not empty has each of its
/// elements or members on a line of its own, indented by two spaces more than the line
/// on which it opens.
pub open spec fn pretty_model(value: JsonValue, level: nat) -> Seq<char>
    decreases value, 0nat,
{
    match value {
        JsonValue::Null => "null"@,
        JsonValue::Bool(b) => if b {
            "true"@
        } else {
            "false"@
        },
        JsonValue::Number(n) => number_text(n),
        JsonValue::String(s) => string_text(s),
        JsonValue::Array(items) => if items.len() == 0 {
            "[]"@
        } else {
            "["@ + pretty_items(items, deeper(level), items.len()) + "\n"@ + margin(level) + "]"@
        },
        JsonValue::Object(members) => if members.len() == 0 {
            "{}"@
        } else {
            "{"@ + pretty_members(members, deeper(level), members.len()) + "\n"@ + margin(level) + "}"@
        },
    }
}

/// The lines of the first `n` elements of an array, each after a line break and all but
/// the first after a comma.
pub open spec fn pretty_items(items: Seq<JsonValue>, level: nat, n: nat) -> Seq<char>
    decreases items, n,
{
    if n == 0 || n > items.len() {
        Seq::empty()
    } else {
        pretty_items(items, level, (n - 1) as nat) + (if n == 1 {
            "\n"@
        } else {
            ",\n"@
        }) + margin(level) + pretty_model(items[n - 1], level)
    }
}

/// The lines of the first `n` members of an object, each after a line break and all but
/// the first after a comma.
pub open spec fn pretty_members(members: Seq<(Seq<char>, JsonValue)>, level: nat, n: nat) -> Seq<char>
    decreases members, n,
{
    if n == 0 || n > members.len() {
        Seq::empty()
    } else {
        pretty_members(members, level, (n - 1) as nat) + (if n == 1 {
            "\n"@
        } else {
            ",\n"@
        }) + margin(level) + string_text(members[n - 1].0) + ": "@ + pretty_model(members[n - 1].1, level)
    }
}

fn write_string(out: &mut String, s: &str)
    ensures
        final(out)@ == old(out)@ + string_text(s@),
{
    out.append("\"");
    for c in it: s.chars()
        invariant
            it.seq() == s@,
            out@ == old(out)@ + "\""@ + escaped(s@, it.index() as nat),
    {
        let ghost before = out@;
        if c == '"' {
            out.append("\\\"");
        } else if c == '\\' {
            out.append("\\\\");
        } else if c == '\n' {
            out.append("\\n");
        } else if c == '\r' {
            out.append("\\r");
        } else if c == '\t' {
            out.append("\\t");
        } else {
            push_char(out, c);
            assert(before.push(c) =~= before + seq![c]);
        }
        assert(out@ =~= old(out)@ + "\""@ + escaped(s@, (it.index() + 1) as nat));
    }
    out.append("\"");
    assert(out@ =~= old(out)@ + string_text(s@));
}

fn write_margin(out: &mut String, level: u64)
    ensures
        final(out)@ == old(out)@ + margin(level as nat),
{
    let mut i: u64 = 0;
    assert(out@ =~= old(out)@ + margin(0));
    while i < level
        invariant
            i <= level,
            out@ == old(out)@ + margin(i as nat),
        decreases level - i,
    {
        out.append("  ");
        assert(out@ =~= old(out)@ + margin((i + 1) as nat));
        i += 1;
    }
}

proof fn lemma_regroup(a: Seq<char>, b: Seq<char>, c: Seq<char>, d: Seq<char>, e: Seq<char>)
    ensures
        a + b + c + d + e == a + (b + c + d + e),
{
    assert(a + b + c + d + e =~= a + (b + c + d + e));
}

proof fn lemma_regroup_member(
    a: Seq<char>,
    b: Seq<char>,
    c: Seq<char>,
    d: Seq<char>,
    e: Seq<char>,
    f: Seq<char>,
    g: Seq<char>,
)
    ensures
        a + b + c + d + e + f + g == a + (b + c + d + e + f + g),
{
    assert(a + b + c + d + e + f + g =~= a + (b + c + d + e + f + g));
}

fn write_items(out: &mut String, items: &Vec<Json>, level: u64)
    ensures
        final(out)@ == old(out)@ + pretty_items(json_views(items@), level as nat, items.len() as nat),
    decreases items, 0nat,
{
    let ghost models = json_views(items@);
    let ghost start = out@;
    let mut i: usize = 0;
    assert(out@ =~= start + pretty_items(models, level as nat, 0));
    while i < items.len()
        invariant
            i <= items.len(),
            models == json_views(items@),
            out@ == start + pretty_items(models, level as nat, i as nat),
        decreases items.len() - i,
    {
        let ghost done = pretty_items(models, level as nat, i as nat);
        let separator = if i == 0 {
            "\n"
        } else {
            ",\n"
        };
        out.append(separator);
        write_margin(out, level);
        assert(models[i as int] == items@[i as int]@);
        write_value(out, &items[i], level);
        proof {
            lemma_regroup(start, done, separator@, margin(level as nat), pretty_model(models[i as int], level as nat));
        }
        i += 1;
    }
}

fn write_members(out: &mut String, members: &Vec<(String, Json)>, level: u64)
    ensures
        final(out)@ == old(out)@ + pretty_members(member_views(members@), level as nat, members.len() as nat),
    decreases members, 0nat,
{
    let ghost models = member_views(members@);
    let ghost start = out@;
    let mut i: usize = 0;
    assert(out@ =~= start + pretty_members(models, level as nat, 0));
    while i < members.len()
        invariant
            i <= members.len(),
            models == member_views(members@),
            out@ == start + pretty_members(models, level as nat, i as nat),
        decreases members.len() - i,
    {
        let ghost done = pretty_members(models, level as nat, i as nat);
        let separator = if i == 0 {
            "\n"
        } else {
            ",\n"
        };
        out.append(separator);
        write_margin(out, level);
        assert(models[i as int] == (members@[i as int].0@, members@[i as int].1@));
        write_string(out, members[i].0.as_str());
        out.append(": ");
        write_value(out, &members[i].1, level);
        proof {
            lemma_regroup_member(
                start,
                done,
                separator@,
                margin(level as nat),
                string_text(models[i as int].0),
                ": "@,
                pretty_model(models[i as int].1, level as nat),
            );
        }
        i += 1;
    }
}

fn write_value(out: &mut String, value: &Json, level: u64)
    ensures
        final(out)@ == old(out)@ + pretty_model(value@, level as nat),
    decreases value, 1nat,
{
    let below: u64 = if level < u64::MAX {
        level + 1
    } else {
        level
    };
    match value {
        Json::Null => {
            out.append("null");
        },
        Json::Bool(b) => {
            if *b {
                out.append("true");
            } else {
                out.append("false");
            }
        },
        Json::Number(n) => {
            let text = n.to_text();
            out.append(text.as_str());
        },
        Json::String(s) => {
            write_string(out, s.as_str());
        },
        Json::Array(items) => {
            assert(value@ == JsonValue::Array(json_views(items@)));
            if items.len() == 0 {
                out.append("[]");
            } else {
                out.append("[");
                write_items(out, items, below);
                out.append("\n");
                write_margin(out, level);
                out.append("]");
                proof {
                    lemma_regroup(
                        old(out)@,
                        "["@,
                        pretty_items(json_views(items@), below as nat, items.len() as nat),
                        "\n"@ + margin(level as nat),
                        "]"@,
                    );
                    assert(out@ =~= old(out)@ + "["@ + pretty_items(
                        json_views(items@),
                        below as nat,
                        items.len() as nat,
                    ) + ("\n"@ + margin(level as nat)) + "]"@);
                    assert(pretty_model(value@, level as nat) =~= "["@ + pretty_items(
                        json_views(items@),
                        below as nat,
                        items.len() as nat,
                    ) + ("\n"@ + margin(level as nat)) + "]"@);
                }
            }
        },
        Json::Object(members) => {
            assert(value@ == JsonValue::Object(member_views(members@)));
            if members.len() == 0 {
                out.append("{}");
            } else {
                out.append("{");
                write_members(out, members, below);
                out.append("\n");
                write_margin(out, level);
                out.append("}");
                proof {
                    lemma_regroup(
                        old(out)@,
                        "{"@,
                        pretty_members(member_views(members@), below as nat, members.len() as nat),
                        "\n"@ + margin(level as nat),
                        "}"@,
                    );
                    assert(out@ =~= old(out)@ + "{"@ + pretty_members(
                        member_views(members@),
                        below as nat,
                        members.len() as nat,
                    ) + ("\n"@ + margin(level as nat)) + "}"@);
                    assert(pretty_model(value@, level as nat) =~= "{"@ + pretty_members(
                        member_views(members@),
                        below as nat,
                        members.len() as nat,
                    ) + ("\n"@ + margin(level as nat)) + "}"@);
                }
            }
        },
    }
}

/// Writes a document as indented JSON text.
pub fn to_string_pretty(value: &Json) -> (r: String)
    ensures
        r@ == pretty_model(value@, 0),
{
    let mut out = String::new();
    write_value(&mut out, value, 0);
    assert(out@ =~= pretty_model(value@, 0));
    out
}

} // verus!
