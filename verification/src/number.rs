//! JSON numbers. A double is held as its IEEE-754 bit pattern and handled with integer
//! arithmetic only.

use vstd::prelude::*;
use crate::text::{decimal, i64_to_string, signed_decimal, u64_to_string};

verus! {

/// Two to the power 52: the weight of a double's hidden bit.
pub const POW52: u64 = 4503599627370496;

/// Two to the power 53.
pub const POW53: u64 = 9007199254740992;

/// Two to the power 63: the sign bit of a double.
pub const SIGN_BIT: u64 = 9223372036854775808;

/// The bit pattern of positive infinity; the magnitudes of finite doubles lie below it.
pub const INFINITY_BITS: u64 = 9218868437227405312;

/// A JSON number: a non-negative integer, a negative integer, or a double given by its
/// bit pattern.
#[derive(Clone, Copy, Debug)]
pub enum Number {
    PosInt(u64),
    NegInt(i64),
    Float(u64),
}

/// Two to the power `k`.
pub open spec fn pow2(k: nat) -> nat
    decreases k,
{
    if k == 0 {
        1
    } else {
        2 * pow2((k - 1) as nat)
    }
}

/// The bit pattern without its sign bit.
pub open spec fn float_magnitude(bits: u64) -> u64 {
    if bits >= SIGN_BIT {
        (bits - SIGN_BIT) as u64
    } else {
        bits
    }
}

/// Whether the pattern is that of a finite double: neither an infinity nor a NaN.
pub open spec fn float_finite(bits: u64) -> bool {
    float_magnitude(bits) < INFINITY_BITS
}

/// The place of a finite double in the numeric order: finite doubles compare as their
/// sign-and-magnitude patterns read as integers, and both zeros have place 0.
pub open spec fn float_key(bits: u64) -> int {
    if bits >= SIGN_BIT {
        -(float_magnitude(bits) as int)
    } else {
        bits as int
    }
}

/// The pattern of the double with exponent field `1023 + e` whose 53-bit significand is
/// reached from `m` by doubling: `m * 2^(e - 52)` for the `e` and `m` first given.
pub open spec fn scale_up(m: nat, e: nat) -> nat
    decreases e,
{
    if m == 0 || m >= POW52 || e == 0 {
        ((1023 + e) * POW52 + m - POW52) as nat
    } else {
        scale_up(2 * m, (e - 1) as nat)
    }
}

/// The pattern of the double nearest to `n` once `n` is cut to 53 significant bits by
/// dividing by the power of two `s`, ties going to the even significand. `e` is the
/// exponent that belongs to `s`.
pub open spec fn round_down(n: nat, s: nat, e: nat) -> nat
    decreases 64 - e,
{
    if n / s < POW53 || e >= 64 {
        let q = n / s;
        let r = n % s;
        let up: nat = if 2 * r > s || (2 * r == s && q % 2 == 1) {
            1
        } else {
            0
        };
        ((1023 + e) * POW52 + q + up - POW52) as nat
    } else {
        round_down(n, 2 * s, e + 1)
    }
}

/// The bit pattern of the double nearest to the non-negative integer `n`, ties going to
/// the even significand: what `n as f64` gives.
pub open spec fn nat_to_float(n: nat) -> nat {
    if n == 0 {
        0
    } else if n < POW52 {
        scale_up(n, 52)
    } else {
        round_down(n, 1, 52)
    }
}

impl Number {
    /// Whether the number is what a JSON parser hands out: a negative integer is below
    /// zero and a double is finite.
    pub open spec fn wf(self) -> bool {
        match self {
            Number::PosInt(_) => true,
            Number::NegInt(i) => i < 0,
            Number::Float(bits) => float_finite(bits),
        }
    }

    /// The number's place in the numeric order after promotion to a double.
    pub open spec fn key(self) -> int {
        match self {
            Number::PosInt(u) => nat_to_float(u as nat) as int,
            Number::NegInt(i) => if i < 0 {
                -(nat_to_float((-i) as nat) as int)
            } else {
                nat_to_float(i as nat) as int
            },
            Number::Float(bits) => float_key(bits),
        }
    }

    /// Whether the number is an integer in value: an integer variant, or a double without
    /// a fractional part.
    pub open spec fn is_integral(self) -> bool {
        match self {
            Number::PosInt(_) => true,
            Number::NegInt(_) => true,
            Number::Float(bits) => float_is_integral(bits),
        }
    }
}

/// Whether the double with this pattern has no fractional part. With exponent field `f`
/// and fraction `m` the value is `(2^52 + m) * 2^(f - 1075)`; fields of 0 are zero and
/// the subnormals.
pub open spec fn float_is_integral(bits: u64) -> bool {
    let mag = float_magnitude(bits);
    let field = mag / POW52;
    let fraction = mag % POW52;
    if field == 0 {
        fraction == 0
    } else if field >= 1075 {
        true
    } else if field < 1023 {
        false
    } else {
        fraction as nat % pow2((1075 - field) as nat) == 0
    }
}

/// The pattern of the double nearest to `n`.
pub fn u64_to_float(n: u64) -> (bits: u64)
    ensures
        bits == nat_to_float(n as nat),
        bits < 1088 * POW52,
{
    if n == 0 {
        0
    } else if n < POW52 {
        let mut m: u64 = n;
        let mut e: u64 = 52;
        while m < POW52 && e > 0
            invariant
                0 < m < POW53,
                e <= 52,
                scale_up(m as nat, e as nat) == scale_up(n as nat, 52),
            decreases e,
        {
            m = 2 * m;
            e = e - 1;
        }
        (1023 + e) * POW52 + m - POW52
    } else {
        let mut s: u64 = 1;
        let mut e: u64 = 52;
        while n / s >= POW53
            invariant
                0 < s <= 2048,
                52 <= e <= 63,
                s == pow2((e - 52) as nat),
                n / s >= POW52,
                round_down(n as nat, s as nat, e as nat) == round_down(n as nat, 1, 52),
            decreases n / s,
        {
            proof {
                assert(n / s < 0x1_0000_0000_0000_0000);
                lemma_div_twice(n as nat, s as nat);
                assert(e < 63) by {
                    if e == 63 {
                        lemma_pow2_eleven();
                        assert(n / 2048 < POW53);
                    }
                }
                lemma_pow2_step((e - 52) as nat, s as nat);
            }
            s = 2 * s;
            e = e + 1;
        }
        let q = n / s;
        let r = n % s;
        let up: u64 = if 2 * r > s || (2 * r == s && q % 2 == 1) {
            1
        } else {
            0
        };
        (1023 + e) * POW52 + q + up - POW52
    }
}

proof fn lemma_div_twice(n: nat, s: nat)
    requires
        s > 0,
    ensures
        n / (2 * s) == (n / s) / 2,
{
    vstd::arithmetic::div_mod::lemma_div_denominator(n as int, s as int, 2);
    assert(s * 2 == 2 * s);
}

proof fn lemma_pow2_eleven()
    ensures
        pow2(11) == 2048,
{
    reveal_with_fuel(pow2, 12);
}

proof fn lemma_pow2_step(k: nat, s: nat)
    requires
        s == pow2(k),
        k < 11,
    ensures
        2 * s == pow2(k + 1),
        2 * s <= 2048,
{
    lemma_pow2_eleven();
    lemma_pow2_monotone(k + 1, 11);
}

proof fn lemma_pow2_monotone(a: nat, b: nat)
    requires
        a <= b,
    ensures
        pow2(a) <= pow2(b),
        pow2(a) > 0,
    decreases b,
{
    if a == b {
        lemma_pow2_positive(a);
    } else {
        lemma_pow2_monotone(a, (b - 1) as nat);
    }
}

proof fn lemma_pow2_positive(a: nat)
    ensures
        pow2(a) > 0,
    decreases a,
{
    if a > 0 {
        lemma_pow2_positive((a - 1) as nat);
    }
}


/// Two to the power `k`, for the exponents a double's fraction can need.
fn pow2_u64(k: u64) -> (p: u64)
    requires
        k <= 53,
    ensures
        p == pow2(k as nat),
        0 < p <= POW53,
{
    let mut p: u64 = 1;
    let mut i: u64 = 0;
    proof {
        lemma_pow2_53();
    }
    while i < k
        invariant
            i <= k <= 53,
            p == pow2(i as nat),
            0 < p <= pow2(53),
            pow2(53) == POW53,
        decreases k - i,
    {
        proof {
            lemma_pow2_monotone((i + 1) as nat, 53);
        }
        p = 2 * p;
        i = i + 1;
    }
    p
}

proof fn lemma_pow2_53()
    ensures
        pow2(53) == POW53,
        pow2(52) == POW52,
{
    reveal_with_fuel(pow2, 54);
}

/// The significand of the double with this pattern: the value is
/// `float_significand * 2^float_exponent`, up to sign.
pub open spec fn float_significand(bits: u64) -> nat {
    let mag = float_magnitude(bits);
    if mag / POW52 == 0 {
        (mag % POW52) as nat
    } else {
        (POW52 + mag % POW52) as nat
    }
}

/// The power of two that scales the significand of the double with this pattern.
pub open spec fn float_exponent(bits: u64) -> int {
    let mag = float_magnitude(bits);
    if mag / POW52 == 0 {
        -1074
    } else {
        mag / POW52 - 1075
    }
}

/// The significand `m`, doubled until it has 53 bits.
pub open spec fn normal_significand(m: nat, steps: nat) -> nat
    decreases steps,
{
    if m == 0 || m >= POW52 || steps == 0 {
        m
    } else {
        normal_significand(2 * m, (steps - 1) as nat)
    }
}

/// The number of doublings that bring `m` to 53 bits.
pub open spec fn normal_shift(m: nat, steps: nat) -> nat
    decreases steps,
{
    if m == 0 || m >= POW52 || steps == 0 {
        0
    } else {
        1 + normal_shift(2 * m, (steps - 1) as nat)
    }
}

/// Whether the quotient of the doubles `x / y`, rounded to the nearest double with ties
/// to even, has no fractional part. Both are finite and not zero.
///
/// With 53-bit significands `nx`, `ny` and `d` the difference of the exponents, the exact
/// quotient is `(nx / ny) * 2^d`, in the binade of exponent `e`. From `2^52` on every
/// double is whole, and so is an infinity by this test. Down to one half the quotient
/// rounds to `r * 2^(e - 52)`, which is whole when `2^(52 - e)` divides `r`. Below that
/// it is whole only where it rounds to zero: at or under `2^-1075`.
pub open spec fn quotient_is_integral(x: u64, y: u64) -> bool {
    let nx = normal_significand(float_significand(x), 52) as int;
    let ny = normal_significand(float_significand(y), 52) as int;
    let d = (float_exponent(x) - normal_shift(float_significand(x), 52)) - (float_exponent(y)
        - normal_shift(float_significand(y), 52));
    let e = if nx >= ny {
        d
    } else {
        d - 1
    };
    let n = if nx >= ny {
        nx * POW52
    } else {
        nx * POW53
    };
    let q = n / ny;
    let rem = n % ny;
    let r = if 2 * rem > ny || (2 * rem == ny && q % 2 == 1) {
        q + 1
    } else {
        q
    };
    if e >= 52 {
        true
    } else if e >= -1 {
        r % (pow2((52 - e) as nat) as int) == 0
    } else {
        d < -1075 || (d == -1075 && nx <= ny)
    }
}

/// The pattern of the double that the number is promoted to.
pub open spec fn promoted(n: Number) -> u64 {
    match n {
        Number::PosInt(u) => nat_to_float(u as nat) as u64,
        Number::NegInt(i) => if i < 0 {
            (SIGN_BIT + nat_to_float((-i) as nat)) as u64
        } else {
            nat_to_float(i as nat) as u64
        },
        Number::Float(bits) => bits,
    }
}

/// The magnitude of the integer that an integer variant holds.
pub open spec fn integer_magnitude(n: Number) -> nat {
    match n {
        Number::PosInt(u) => u as nat,
        Number::NegInt(i) => if i < 0 {
            (-i) as nat
        } else {
            i as nat
        },
        Number::Float(_) => 0,
    }
}

/// Whether `a` is a multiple of `b`. For two integers the magnitude of `b` must divide
/// that of `a`; otherwise both are
/// promoted to doubles and the rounded quotient must be whole. Nothing is a multiple of
/// zero.
pub open spec fn is_multiple_of(a: Number, b: Number) -> bool {
    if !(a is Float) && !(b is Float) {
        integer_magnitude(b) != 0 && integer_magnitude(a) % integer_magnitude(b) == 0
    } else if float_magnitude(promoted(b)) == 0 {
        false
    } else if float_magnitude(promoted(a)) == 0 {
        true
    } else {
        quotient_is_integral(promoted(a), promoted(b))
    }
}

fn magnitude_i64(i: i64) -> (m: u64)
    ensures
        m == integer_magnitude(Number::NegInt(i)),
        m <= SIGN_BIT,
        (m == 0) == (i == 0),
{
    if i == i64::MIN {
        SIGN_BIT
    } else if i < 0 {
        (-i) as u64
    } else {
        i as u64
    }
}

fn normalize(m: u64) -> (r: (u64, u64))
    requires
        0 < m < POW53,
    ensures
        r.0 == normal_significand(m as nat, 52),
        r.1 == normal_shift(m as nat, 52),
        POW52 <= r.0 < POW53,
        r.1 <= 52,
{
    let mut sig: u64 = m;
    let mut shift: u64 = 0;
    proof {
        lemma_pow2_53();
    }
    while sig < POW52 && shift < 52
        invariant
            0 < sig < POW53,
            shift <= 52,
            sig >= pow2(shift as nat),
            pow2(52) == POW52,
            normal_significand(sig as nat, (52 - shift) as nat) == normal_significand(m as nat, 52),
            shift + normal_shift(sig as nat, (52 - shift) as nat) == normal_shift(m as nat, 52),
        decreases 52 - shift,
    {
        sig = 2 * sig;
        shift = shift + 1;
    }
    (sig, shift)
}

impl Number {
    /// The pattern of the double that the number is promoted to.
    pub fn to_float(&self) -> (bits: u64)
        ensures
            bits == promoted(*self),
    {
        match self {
            Number::PosInt(u) => u64_to_float(*u),
            Number::NegInt(i) => {
                if *i < 0 {
                    SIGN_BIT + u64_to_float(magnitude_i64(*i))
                } else {
                    u64_to_float(*i as u64)
                }
            },
            Number::Float(bits) => *bits,
        }
    }

    /// The number's place in the numeric order after promotion to a double.
    pub fn order_key(&self) -> (k: i128)
        ensures
            k == self.key(),
            -0x8000_0000_0000_0000 < k < 0x8000_0000_0000_0000,
    {
        match self {
            Number::PosInt(u) => u64_to_float(*u) as i128,
            Number::NegInt(i) => {
                if *i < 0 {
                    -(u64_to_float(magnitude_i64(*i)) as i128)
                } else {
                    u64_to_float(*i as u64) as i128
                }
            },
            Number::Float(bits) => {
                if *bits >= SIGN_BIT {
                    -((*bits - SIGN_BIT) as i128)
                } else {
                    *bits as i128
                }
            },
        }
    }

    /// Whether `self` is below `other` once both are promoted to doubles.
    pub fn lt(&self, other: &Number) -> (r: bool)
        ensures
            r == (self.key() < other.key()),
    {
        self.order_key() < other.order_key()
    }

    /// Whether `self` is at most `other` once both are promoted to doubles.
    pub fn le(&self, other: &Number) -> (r: bool)
        ensures
            r == (self.key() <= other.key()),
    {
        self.order_key() <= other.order_key()
    }

    /// Whether the two numbers are equal once both are promoted to doubles.
    pub fn same_value(&self, other: &Number) -> (r: bool)
        ensures
            r == (self.key() == other.key()),
    {
        self.order_key() == other.order_key()
    }

    /// Whether the number is an integer in value.
    pub fn integral(&self) -> (r: bool)
        ensures
            r == self.is_integral(),
    {
        match self {
            Number::PosInt(_) => true,
            Number::NegInt(_) => true,
            Number::Float(bits) => {
                let mag = if *bits >= SIGN_BIT {
                    *bits - SIGN_BIT
                } else {
                    *bits
                };
                let field = mag / POW52;
                let fraction = mag % POW52;
                if field == 0 {
                    fraction == 0
                } else if field >= 1075 {
                    true
                } else if field < 1023 {
                    false
                } else {
                    fraction % pow2_u64(1075 - field) == 0
                }
            },
        }
    }

    /// Whether `self` is a multiple of `other`.
    pub fn multiple_of(&self, other: &Number) -> (r: bool)
        ensures
            r == is_multiple_of(*self, *other),
    {
        match (self, other) {
            (Number::PosInt(a), Number::PosInt(b)) => *b != 0 && *a % *b == 0,
            (Number::PosInt(a), Number::NegInt(b)) => *b != 0 && *a % magnitude_i64(*b) == 0,
            (Number::NegInt(a), Number::PosInt(b)) => *b != 0 && magnitude_i64(*a) % *b == 0,
            (Number::NegInt(a), Number::NegInt(b)) => *b != 0 && magnitude_i64(*a) % magnitude_i64(
                *b,
            ) == 0,
            _ => {
                let x = self.to_float();
                let y = other.to_float();
                let mx = if x >= SIGN_BIT {
                    x - SIGN_BIT
                } else {
                    x
                };
                let my = if y >= SIGN_BIT {
                    y - SIGN_BIT
                } else {
                    y
                };
                if my == 0 {
                    false
                } else if mx == 0 {
                    true
                } else {
                    quotient_integral(mx, my)
                }
            },
        }
    }
}

fn decode(mag: u64) -> (r: (u64, i64))
    requires
        mag < SIGN_BIT,
    ensures
        r.0 == float_significand(mag),
        r.1 == float_exponent(mag),
        r.0 < POW53,
        -1074 <= r.1 <= 972,
        mag > 0 ==> r.0 > 0,
{
    let field = mag / POW52;
    let fraction = mag % POW52;
    if field == 0 {
        (fraction, -1074)
    } else {
        (POW52 + fraction, field as i64 - 1075)
    }
}

fn quotient_integral(x: u64, y: u64) -> (r: bool)
    requires
        0 < x < SIGN_BIT,
        0 < y < SIGN_BIT,
    ensures
        r == quotient_is_integral(x, y),
{
    let (sx, ex) = decode(x);
    let (sy, ey) = decode(y);
    let (nx, ax) = normalize(sx);
    let (ny, ay) = normalize(sy);
    let d: i64 = (ex - ax as i64) - (ey - ay as i64);
    let e: i64 = if nx >= ny {
        d
    } else {
        d - 1
    };
    if e >= 52 {
        true
    } else if e >= -1 {
        assert(nx * POW53 <= 0x20_0000_0000_0000 * 0x20_0000_0000_0000 && nx * POW52 <= nx * POW53)
            by (nonlinear_arith)
            requires
                nx < 0x20_0000_0000_0000,
                POW53 == 0x20_0000_0000_0000,
                POW52 == 0x10_0000_0000_0000,
        ;
        let n: u128 = if nx >= ny {
            nx as u128 * POW52 as u128
        } else {
            nx as u128 * POW53 as u128
        };
        let q: u128 = n / ny as u128;
        let rem: u128 = n % ny as u128;
        assert(q <= POW53) by {
            lemma_quotient_bound(nx as int, ny as int);
        }
        let rounded: u128 = if 2 * rem > ny as u128 || (2 * rem == ny as u128 && q % 2 == 1) {
            q + 1
        } else {
            q
        };
        let step = pow2_u64((52 - e) as u64);
        rounded % (step as u128) == 0
    } else {
        d < -1075 || (d == -1075 && nx <= ny)
    }
}

proof fn lemma_quotient_bound(nx: int, ny: int)
    requires
        POW52 <= nx < POW53,
        POW52 <= ny < POW53,
    ensures
        nx >= ny ==> (nx * POW52) / ny <= POW53,
        nx < ny ==> (nx * POW53) / ny <= POW53,
{
    if nx >= ny {
        assert(nx * POW52 < ny * POW53) by (nonlinear_arith)
            requires
                nx < POW53,
                ny >= POW52,
                POW53 == 2 * POW52,
        ;
        vstd::arithmetic::div_mod::lemma_div_is_ordered(nx * POW52, ny * POW53, ny);
        vstd::arithmetic::div_mod::lemma_div_multiples_vanish(POW53 as int, ny);
        assert(ny * POW53 == POW53 * ny) by (nonlinear_arith);
    } else {
        assert(nx * POW53 <= ny * POW53) by (nonlinear_arith)
            requires
                nx < ny,
        ;
        vstd::arithmetic::div_mod::lemma_div_is_ordered(nx * POW53, ny * POW53, ny);
        vstd::arithmetic::div_mod::lemma_div_multiples_vanish(POW53 as int, ny);
        assert(ny * POW53 == POW53 * ny) by (nonlinear_arith);
    }
}

/// `m` without its trailing zero bits, at most `steps` of them.
pub open spec fn odd_part(m: nat, steps: nat) -> nat
    decreases steps,
{
    if m == 0 || m % 2 == 1 || steps == 0 {
        m
    } else {
        odd_part(m / 2, (steps - 1) as nat)
    }
}

/// The number of trailing zero bits of `m`, at most `steps`.
pub open spec fn trailing_zeros(m: nat, steps: nat) -> nat
    decreases steps,
{
    if m == 0 || m % 2 == 1 || steps == 0 {
        0
    } else {
        1 + trailing_zeros(m / 2, (steps - 1) as nat)
    }
}

/// The whole number that a double without a fractional part holds: its significand
/// scaled by its power of two.
pub open spec fn whole_value(bits: u64) -> nat {
    let sig = float_significand(bits);
    let exp = float_exponent(bits);
    if exp >= 0 {
        sig * pow2(exp as nat)
    } else {
        sig / pow2((-exp) as nat)
    }
}

/// How a double is written in a message. Zero is `0.0`; a whole number below `2^64` is
/// written in decimal and ends in `.0`; anything else is written exactly, as `m*2^e`
/// with `m` odd.
pub open spec fn float_text(bits: u64) -> Seq<char> {
    let sign = if bits >= SIGN_BIT {
        "-"@
    } else {
        ""@
    };
    let sig = float_significand(bits);
    if sig == 0 {
        sign + "0.0"@
    } else if float_is_integral(bits) && float_exponent(bits) <= 11 {
        sign + decimal(whole_value(bits)) + ".0"@
    } else {
        sign + decimal(odd_part(sig, 53)) + "*2^"@ + signed_decimal(
            float_exponent(bits) + trailing_zeros(sig, 53),
        )
    }
}

/// How a number is written in a message: an integer in decimal, a double as `float_text`
/// has it.
pub open spec fn number_text(n: Number) -> Seq<char> {
    match n {
        Number::PosInt(u) => decimal(u as nat),
        Number::NegInt(i) => signed_decimal(i as int),
        Number::Float(bits) => float_text(bits),
    }
}

fn strip_zeros(m: u64) -> (r: (u64, u64))
    requires
        m < POW53,
    ensures
        r.0 == odd_part(m as nat, 53),
        r.1 == trailing_zeros(m as nat, 53),
        r.0 <= m,
        r.1 <= 53,
        m > 0 ==> r.0 > 0,
{
    let mut odd: u64 = m;
    let mut zeros: u64 = 0;
    while odd != 0 && odd % 2 == 0 && zeros < 53
        invariant
            odd <= m,
            zeros <= 53,
            m > 0 ==> odd > 0,
            odd_part(odd as nat, (53 - zeros) as nat) == odd_part(m as nat, 53),
            zeros + trailing_zeros(odd as nat, (53 - zeros) as nat) == trailing_zeros(m as nat, 53),
        decreases 53 - zeros,
    {
        odd = odd / 2;
        zeros = zeros + 1;
    }
    (odd, zeros)
}

proof fn lemma_small_product(m: nat, e: nat)
    requires
        m < POW53,
        e <= 11,
    ensures
        m * pow2(e) < 0x1_0000_0000_0000_0000,
        pow2(e) <= 2048,
{
    lemma_pow2_eleven();
    lemma_pow2_monotone(e, 11);
    assert(m * pow2(e) <= (POW53 - 1) * 2048) by (nonlinear_arith)
        requires
            m <= POW53 - 1,
            pow2(e) <= 2048,
    ;
}

impl Number {
    /// Writes the number for a message.
    pub fn to_text(&self) -> (r: String)
        ensures
            r@ == number_text(*self),
    {
        match self {
            Number::PosInt(u) => u64_to_string(*u),
            Number::NegInt(i) => i64_to_string(*i),
            Number::Float(bits) => {
                let negative = *bits >= SIGN_BIT;
                let mag = if negative {
                    *bits - SIGN_BIT
                } else {
                    *bits
                };
                let (sig, exp) = decode(mag);
                let mut out = if negative {
                    "-".to_string()
                } else {
                    "".to_string()
                };
                if sig == 0 {
                    out.append("0.0");
                } else if exp <= 11 && self.integral() {
                    let whole: u64 = if exp >= 0 {
                        proof {
                            lemma_small_product(sig as nat, exp as nat);
                        }
                        sig * pow2_u64(exp as u64)
                    } else {
                        sig / pow2_u64((-exp) as u64)
                    };
                    let digits = u64_to_string(whole);
                    out.append(digits.as_str());
                    out.append(".0");
                } else {
                    let (odd, zeros) = strip_zeros(sig);
                    let digits = u64_to_string(odd);
                    out.append(digits.as_str());
                    out.append("*2^");
                    let power = i64_to_string(exp + zeros as i64);
                    out.append(power.as_str());
                }
                assert(out@ =~= float_text(*bits));
                out
            },
        }
    }
}

proof fn lemma_scale_up_below(m: nat, e: nat)
    requires
        0 < m < POW53,
    ensures
        scale_up(m, e) < (1024 + e) * POW52,
        m < POW52 && e > 0 ==> scale_up(m, e) < (1023 + e) * POW52,
    decreases e,
{
    if m >= POW52 || e == 0 {
    } else {
        lemma_scale_up_below(2 * m, (e - 1) as nat);
    }
}

proof fn lemma_scale_up_ordered(a: nat, b: nat, e: nat)
    requires
        0 < a <= b < POW53,
    ensures
        scale_up(a, e) <= scale_up(b, e),
    decreases e,
{
    if a >= POW52 || e == 0 {
    } else if b >= POW52 {
        lemma_scale_up_below(a, e);
    } else {
        lemma_scale_up_ordered(2 * a, 2 * b, (e - 1) as nat);
    }
}

/// Below `2^52` the promotion to a double keeps the order of the integers.
pub proof fn lemma_small_integers_keep_order(a: nat, b: nat)
    requires
        a <= b < POW52,
    ensures
        nat_to_float(a) <= nat_to_float(b),
{
    if a > 0 {
        lemma_scale_up_ordered(a, b, 52);
    }
}

/// The magnitude of a double in units of `2^-1074`, the smallest step between doubles:
/// its significand times its power of two. Every finite double is a whole number of such
/// units.
pub open spec fn float_units(bits: u64) -> nat {
    float_significand(bits) * pow2((float_exponent(bits) + 1074) as nat)
}

/// The value of a double in units of `2^-1074`, with its sign.
pub open spec fn signed_units(bits: u64) -> int {
    if bits >= SIGN_BIT {
        -(float_units(bits) as int)
    } else {
        float_units(bits) as int
    }
}

proof fn lemma_pow2_adds(a: nat, b: nat)
    ensures
        pow2(a + b) == pow2(a) * pow2(b),
    decreases a,
{
    if a == 0 {
        assert(pow2(0) == 1);
        assert(pow2(b) == 1 * pow2(b));
    } else {
        lemma_pow2_adds((a - 1) as nat, b);
        assert(pow2(a + b) == 2 * pow2((a + b - 1) as nat));
        assert(2 * (pow2((a - 1) as nat) * pow2(b)) == (2 * pow2((a - 1) as nat)) * pow2(b)) by (nonlinear_arith);
    }
}

proof fn lemma_units_of_fields(bits: u64)
    requires
        bits < SIGN_BIT,
    ensures
        bits / POW52 == 0 ==> float_units(bits) == bits,
        bits / POW52 >= 1 ==> float_units(bits) == (POW52 + bits % POW52) * pow2((bits / POW52 - 1) as nat),
        bits / POW52 >= 1 ==> POW52 * pow2((bits / POW52 - 1) as nat) <= float_units(bits) < POW52 * pow2(
            (bits / POW52) as nat,
        ),
{
    let field = bits / POW52;
    let fraction = bits % POW52;
    assert(pow2(0) == 1);
    if field == 0 {
        assert(float_units(bits) == fraction * 1);
    } else {
        let scale = pow2((field - 1) as nat);
        lemma_pow2_positive((field - 1) as nat);
        assert(pow2(field as nat) == 2 * scale);
        assert(POW52 * scale <= (POW52 + fraction) * scale < POW52 * (2 * scale)) by (nonlinear_arith)
            requires
                0 <= fraction < POW52,
                scale > 0,
        ;
    }
}

proof fn lemma_units_grow(x: u64, y: u64)
    requires
        x < y < SIGN_BIT,
    ensures
        float_units(x) < float_units(y),
{
    lemma_units_of_fields(x);
    lemma_units_of_fields(y);
    let fx = x / POW52;
    let fy = y / POW52;
    if fy == 0 {
    } else if fx == 0 {
        lemma_pow2_positive((fy - 1) as nat);
        assert(POW52 * pow2((fy - 1) as nat) >= POW52) by (nonlinear_arith)
            requires
                pow2((fy - 1) as nat) > 0,
        ;
    } else if fx == fy {
        let scale = pow2((fx - 1) as nat);
        lemma_pow2_positive((fx - 1) as nat);
        assert((POW52 + x % POW52) * scale < (POW52 + y % POW52) * scale) by (nonlinear_arith)
            requires
                x % POW52 < y % POW52,
                scale > 0,
        ;
    } else {
        lemma_pow2_monotone(fx as nat, (fy - 1) as nat);
        assert(POW52 * pow2(fx as nat) <= POW52 * pow2((fy - 1) as nat)) by (nonlinear_arith)
            requires
                pow2(fx as nat) <= pow2((fy - 1) as nat),
        ;
    }
}

/// The order of the keys is the order of the values: a double is below another exactly
/// when its key is below the other's. Both zeros have the value and the key 0.
pub proof fn lemma_keys_order_as_values(x: u64, y: u64)
    ensures
        float_key(x) < float_key(y) <==> signed_units(x) < signed_units(y),
        float_key(x) == float_key(y) <==> signed_units(x) == signed_units(y),
{
    let mx = float_magnitude(x);
    let my = float_magnitude(y);
    assert(float_units(x) == float_units(mx));
    assert(float_units(y) == float_units(my));
    lemma_units_of_fields(0);
    assert(float_units(0) == 0);
    if mx < my {
        lemma_units_grow(mx, my);
    } else if my < mx {
        lemma_units_grow(my, mx);
    }
    if mx > 0 {
        lemma_units_grow(0, mx);
    }
    if my > 0 {
        lemma_units_grow(0, my);
    }
}

proof fn lemma_scale_up_keeps_value(m: nat, e: nat)
    requires
        0 < m < POW53,
        m < POW52 ==> pow2(e) * m >= POW52,
        e <= 52,
    ensures
        scale_up(m, e) < SIGN_BIT,
        float_units(scale_up(m, e) as u64) == m * pow2(1022 + e),
    decreases e,
{
    if m >= POW52 || e == 0 {
        assert(pow2(0) == 1);
        assert(m >= POW52) by {
            if e == 0 {
                assert(pow2(e) * m == m) by (nonlinear_arith)
                    requires
                        pow2(e) == 1,
                ;
            }
        }
        let bits = ((1023 + e) * POW52 + m - POW52) as u64;
        assert(bits == (1023 + e) * POW52 + (m - POW52));
        assert(bits / POW52 == 1023 + e);
        assert(bits % POW52 == m - POW52);
        lemma_units_of_fields(bits);
    } else {
        assert(pow2(e) == 2 * pow2((e - 1) as nat));
        assert(pow2((e - 1) as nat) * (2 * m) == pow2(e) * m) by (nonlinear_arith)
            requires
                pow2(e) == 2 * pow2((e - 1) as nat),
        ;
        lemma_scale_up_keeps_value(2 * m, (e - 1) as nat);
        assert(pow2(1022 + e) == 2 * pow2((1022 + e - 1) as nat));
        assert((2 * m) * pow2((1022 + e - 1) as nat) == m * (2 * pow2((1022 + e - 1) as nat))) by (nonlinear_arith);
    }
}

/// Up to `2^53` the promotion to a double is exact: the double holds the integer itself.
pub proof fn lemma_small_integers_are_exact(n: nat)
    requires
        n < POW53,
    ensures
        nat_to_float(n) < SIGN_BIT,
        float_units(nat_to_float(n) as u64) == n * pow2(1074),
{
    lemma_pow2_53();
    if n == 0 {
        lemma_units_of_fields(0);
        assert(0 * pow2(1074) == 0);
    } else if n < POW52 {
        assert(pow2(52) * n >= POW52) by (nonlinear_arith)
            requires
                pow2(52) == POW52,
                n >= 1,
        ;
        lemma_scale_up_keeps_value(n, 52);
    } else {
        let bits = ((1023 + 52) * POW52 + n - POW52) as u64;
        assert(n / 1 == n);
        assert(n % 1 == 0);
        assert(nat_to_float(n) == bits);
        assert(bits == 1075 * POW52 + (n - POW52));
        assert(bits / POW52 == 1075);
        assert(bits % POW52 == n - POW52);
        lemma_units_of_fields(bits);
    }
}

} // verus!
