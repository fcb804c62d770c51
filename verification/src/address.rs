//! IP addresses in text: the dotted quad of IPv4 and the colon-separated groups of IPv6.

use vstd::prelude::*;
use vstd::string::*;
use crate::pointer::digit_value;

verus! {

/// The value of a hexadecimal digit, of either case.
pub open spec fn hex_value(c: char) -> Option<nat> {
    if digit_value(c) is Some {
        digit_value(c)
    } else if c == 'a' || c == 'A' {
        Some(10)
    } else if c == 'b' || c == 'B' {
        Some(11)
    } else if c == 'c' || c == 'C' {
        Some(12)
    } else if c == 'd' || c == 'D' {
        Some(13)
    } else if c == 'e' || c == 'E' {
        Some(14)
    } else if c == 'f' || c == 'F' {
        Some(15)
    } else {
        None
    }
}

/// Whether a character is a digit of the radix: 10 or 16.
pub open spec fn is_digit(c: char, hex: bool) -> bool {
    if hex {
        hex_value(c) is Some
    } else {
        digit_value(c) is Some
    }
}

/// How many digits stand at position `i`, counted up to `max`.
pub open spec fn digit_run(s: Seq<char>, i: int, hex: bool, max: nat) -> nat
    decreases max,
{
    if max == 0 || i < 0 || i >= s.len() || !is_digit(s[i], hex) {
        0
    } else {
        1 + digit_run(s, i + 1, hex, (max - 1) as nat)
    }
}

/// The number that the `len` decimal digits at position `i` write.
pub open spec fn run_value(s: Seq<char>, i: int, len: nat) -> nat
    decreases len,
{
    if len == 0 {
        0
    } else {
        10 * run_value(s, i, (len - 1) as nat) + match digit_value(s[i + len - 1]) {
            Some(d) => d,
            None => 0,
        }
    }
}

/// Where the octet that starts at position `i` ends: one to three decimal digits that
/// write a number up to 255, without a leading zero but for `0` itself.
pub open spec fn octet_end(s: Seq<char>, i: int) -> Option<int> {
    let len = digit_run(s, i, false, 4);
    if len == 0 || len > 3 || (len > 1 && s[i] == '0') || run_value(s, i, len) > 255 {
        None
    } else {
        Some(i + len)
    }
}

/// Where the `parts` octets that start at position `i`, with a dot between each two,
/// end.
pub open spec fn octets_end(s: Seq<char>, i: int, parts: nat) -> Option<int>
    decreases parts,
{
    if parts == 0 {
        None
    } else {
        match octet_end(s, i) {
            None => None,
            Some(end) => if parts == 1 {
                Some(end)
            } else if end < s.len() && s[end] == '.' {
                octets_end(s, end + 1, (parts - 1) as nat)
            } else {
                None
            },
        }
    }
}

/// Whether a text is an IPv4 address: four octets with dots between them, and nothing
/// else.
pub open spec fn is_ipv4(s: Seq<char>) -> bool {
    octets_end(s, 0, 4) == Some(s.len() as int)
}

fn decimal_digit(c: char) -> (r: Option<u32>)
    ensures
        match r {
            Some(d) => digit_value(c) == Some(d as nat) && d < 10,
            None => digit_value(c) is None,
        },
{
    if c == '0' {
        Some(0)
    } else if c == '1' {
        Some(1)
    } else if c == '2' {
        Some(2)
    } else if c == '3' {
        Some(3)
    } else if c == '4' {
        Some(4)
    } else if c == '5' {
        Some(5)
    } else if c == '6' {
        Some(6)
    } else if c == '7' {
        Some(7)
    } else if c == '8' {
        Some(8)
    } else if c == '9' {
        Some(9)
    } else {
        None
    }
}

fn read_octet(s: &str, n: usize, i: usize) -> (r: Option<usize>)
    requires
        n == s@.len(),
        i <= n,
    ensures
        match r {
            Some(end) => octet_end(s@, i as int) == Some(end as int) && i < end <= n,
            None => octet_end(s@, i as int) is None,
        },
{
    let mut len: usize = 0;
    let mut value: u32 = 0;
    while len < 4 && i + len < n
        invariant
            len <= 4,
            i + len <= n,
            n == s@.len(),
            value == run_value(s@, i as int, len as nat),
            len == 0 ==> value == 0,
            len == 1 ==> value < 10,
            len == 2 ==> value < 100,
            len == 3 ==> value < 1000,
            value < 10000,
            digit_run(s@, i as int, false, 4) == len + digit_run(s@, i + len, false, (4 - len) as nat),
        ensures
            digit_run(s@, i as int, false, 4) == len,
        decreases 4 - len,
    {
        match decimal_digit(s.get_char(i + len)) {
            Some(d) => {
                value = 10 * value + d;
                len += 1;
            },
            None => {
                break;
            },
        }
    }
    if len == 0 || len > 3 || (len > 1 && s.get_char(i) == '0') || value > 255 {
        None
    } else {
        Some(i + len)
    }
}

fn read_octets(s: &str, n: usize, i: usize, parts: usize) -> (r: Option<usize>)
    requires
        n == s@.len(),
        i <= n,
    ensures
        match r {
            Some(end) => octets_end(s@, i as int, parts as nat) == Some(end as int) && i < end <= n,
            None => octets_end(s@, i as int, parts as nat) is None,
        },
    decreases parts,
{
    if parts == 0 {
        return None;
    }
    match read_octet(s, n, i) {
        None => None,
        Some(end) => {
            if parts == 1 {
                Some(end)
            } else if end < n && s.get_char(end) == '.' {
                read_octets(s, n, end + 1, parts - 1)
            } else {
                None
            }
        },
    }
}

/// Whether a text is an IPv4 address.
pub fn parse_ipv4(s: &str) -> (r: bool)
    ensures
        r == is_ipv4(s@),
{
    let n = s.unicode_len();
    match read_octets(s, n, 0, 4) {
        Some(end) => end == n,
        None => false,
    }
}

/// Where the group that starts at position `i` ends: one to four hexadecimal digits.
pub open spec fn group_end(s: Seq<char>, i: int) -> Option<int> {
    let len = digit_run(s, i, true, 5);
    if len == 0 || len > 4 {
        None
    } else {
        Some(i + len)
    }
}

/// Where the part of an address begins that follows the `index` parts before it: at
/// once for the first, behind a colon for every other.
pub open spec fn after_colon(s: Seq<char>, pos: int, index: nat) -> Option<int> {
    if index == 0 {
        Some(pos)
    } else if 0 <= pos < s.len() && s[pos] == ':' {
        Some(pos + 1)
    } else {
        None
    }
}

/// What a run of groups came to.
pub struct Groups {
    /// How many groups of 16 bits were read; an embedded IPv4 address counts for two.
    pub count: nat,
    /// Whether the run ended in an embedded IPv4 address.
    pub ipv4: bool,
    /// Where the run ends.
    pub end: int,
}

/// The dotted quad that may stand as the part of index `i`, where at least two groups
/// are left for it.
pub open spec fn embedded_end(s: Seq<char>, pos: int, limit: nat, i: nat) -> Option<int> {
    if i + 1 < limit {
        match after_colon(s, pos, i) {
            Some(p) => octets_end(s, p, 4),
            None => None,
        }
    } else {
        None
    }
}

/// The hexadecimal group that may stand as the part of index `i`.
pub open spec fn next_group_end(s: Seq<char>, pos: int, i: nat) -> Option<int> {
    match after_colon(s, pos, i) {
        Some(p) => group_end(s, p),
        None => None,
    }
}

/// The run of groups that stands at `pos`, given that `i` of at most `limit` were read
/// before it: groups with colons between them, as many as there are, at most `limit`;
/// the run ends at once behind an embedded IPv4 address.
pub open spec fn groups_from(s: Seq<char>, pos: int, limit: nat, i: nat) -> Groups
    decreases limit - i,
{
    if i >= limit {
        Groups { count: limit, ipv4: false, end: pos }
    } else {
        match embedded_end(s, pos, limit, i) {
            Some(end) => Groups { count: i + 2, ipv4: true, end },
            None => match next_group_end(s, pos, i) {
                Some(end) => groups_from(s, end, limit, i + 1),
                None => Groups { count: i, ipv4: false, end: pos },
            },
        }
    }
}

/// Whether a text is an IPv6 address: eight groups of one to four hexadecimal digits with
/// colons between them, of which the last two may be written as an IPv4 address; or
/// fewer groups with one `::` in the place of the groups of zeros that are left out, of
/// which there is at least one, and no IPv4 address before it.
pub open spec fn is_ipv6(s: Seq<char>) -> bool {
    let head = groups_from(s, 0, 8, 0);
    if head.count == 8 {
        head.end == s.len()
    } else if head.ipv4 || head.count > 7 {
        false
    } else if !(0 <= head.end && head.end + 1 < s.len() && s[head.end] == ':' && s[head.end + 1] == ':') {
        false
    } else {
        groups_from(s, head.end + 2, (7 - head.count) as nat, 0).end == s.len()
    }
}

fn is_hex_digit(c: char) -> (r: bool)
    ensures
        r == is_digit(c, true),
{
    decimal_digit(c).is_some() || c == 'a' || c == 'A' || c == 'b' || c == 'B' || c == 'c' || c == 'C'
        || c == 'd' || c == 'D' || c == 'e' || c == 'E' || c == 'f' || c == 'F'
}

fn read_group(s: &str, n: usize, i: usize) -> (r: Option<usize>)
    requires
        n == s@.len(),
        i <= n,
    ensures
        match r {
            Some(end) => group_end(s@, i as int) == Some(end as int) && i < end <= n,
            None => group_end(s@, i as int) is None,
        },
{
    let mut len: usize = 0;
    while len < 5 && i + len < n
        invariant
            len <= 5,
            i + len <= n,
            n == s@.len(),
            digit_run(s@, i as int, true, 5) == len + digit_run(s@, i + len, true, (5 - len) as nat),
        ensures
            digit_run(s@, i as int, true, 5) == len,
        decreases 5 - len,
    {
        if is_hex_digit(s.get_char(i + len)) {
            len += 1;
        } else {
            break;
        }
    }
    if len == 0 || len > 4 {
        None
    } else {
        Some(i + len)
    }
}

fn skip_colon(s: &str, n: usize, pos: usize, index: usize) -> (r: Option<usize>)
    requires
        n == s@.len(),
        pos <= n,
    ensures
        match r {
            Some(p) => after_colon(s@, pos as int, index as nat) == Some(p as int) && pos <= p <= n,
            None => after_colon(s@, pos as int, index as nat) is None,
        },
{
    if index == 0 {
        Some(pos)
    } else if pos < n && s.get_char(pos) == ':' {
        Some(pos + 1)
    } else {
        None
    }
}

fn read_groups(s: &str, n: usize, pos: usize, limit: usize, i: usize) -> (r: (usize, bool, usize))
    requires
        n == s@.len(),
        pos <= n,
        i <= limit <= 8,
    ensures
        groups_from(s@, pos as int, limit as nat, i as nat) == (Groups {
            count: r.0 as nat,
            ipv4: r.1,
            end: r.2 as int,
        }),
        r.0 <= limit,
        pos <= r.2 <= n,
    decreases limit - i,
{
    if i >= limit {
        return (limit, false, pos);
    }
    let start = skip_colon(s, n, pos, i);
    if i + 1 < limit {
        match start {
            Some(p) => match read_octets(s, n, p, 4) {
                Some(end) => {
                    return (i + 2, true, end);
                },
                None => {},
            },
            None => {},
        }
    }
    match start {
        Some(p) => match read_group(s, n, p) {
            Some(end) => read_groups(s, n, end, limit, i + 1),
            None => (i, false, pos),
        },
        None => (i, false, pos),
    }
}

/// Whether a text is an IPv6 address.
pub fn parse_ipv6(s: &str) -> (r: bool)
    ensures
        r == is_ipv6(s@),
{
    let n = s.unicode_len();
    let (count, ipv4, end) = read_groups(s, n, 0, 8, 0);
    if count == 8 {
        return end == n;
    }
    if ipv4 {
        return false;
    }
    if n - end < 2 {
        return false;
    }
    if !(s.get_char(end) == ':' && s.get_char(end + 1) == ':') {
        return false;
    }
    let (_, _, last) = read_groups(s, n, end + 2, 7 - count, 0);
    last == n
}

} // verus!
