use jsonschema_valid::number::{u64_to_float, Number};
use jsonschema_valid::text::{i64_to_string, u64_to_string, usize_to_string};

fn next(state: &mut u64) -> u64 {
    *state = state.wrapping_mul(6364136223846793005).wrapping_add(1442695040888963407);
    let mut x = *state;
    x ^= x >> 33;
    x = x.wrapping_mul(0xff51afd7ed558ccd);
    x ^= x >> 29;
    x
}

fn finite(bits: u64) -> bool {
    f64::from_bits(bits).is_finite()
}

fn sample(state: &mut u64) -> u64 {
    loop {
        let raw = next(state);
        let bits = match raw % 7 {
            0 => raw,
            1 => (raw >> 12) | (1023u64 << 52),
            2 => raw & 0x800f_ffff_ffff_ffff,
            3 => ((raw % 4000) as f64 / 8.0).to_bits(),
            4 => ((raw % 100_000) as f64).to_bits() | (raw & (1 << 63)),
            5 => (((raw >> 20) % 1000) as f64 * 0.001).to_bits(),
            _ => (raw >> 1) | ((raw & 7) << 60),
        };
        if finite(bits) {
            return bits;
        }
    }
}

#[test]
fn integers_are_promoted_like_the_machine_promotes() {
    let mut state = 7;
    for shift in 0..64u32 {
        for delta in [0u64, 1, 2, 3] {
            let n = (1u64 << shift).wrapping_add(delta);
            assert_eq!(u64_to_float(n), (n as f64).to_bits(), "{}", n);
            let m = (1u64 << shift).wrapping_sub(delta);
            assert_eq!(u64_to_float(m), (m as f64).to_bits(), "{}", m);
        }
    }
    for _ in 0..20_000 {
        let raw = next(&mut state);
        let n = raw >> (raw % 64);
        assert_eq!(u64_to_float(n), (n as f64).to_bits(), "{}", n);
        assert_eq!(Number::PosInt(n).to_float(), (n as f64).to_bits());
        let i = (raw as i64) >> (raw % 63);
        assert_eq!(Number::NegInt(i).to_float(), (i as f64).to_bits(), "{}", i);
    }
    assert_eq!(u64_to_float(0), 0);
    assert_eq!(u64_to_float(1), 1.0f64.to_bits());
    assert_eq!(u64_to_float(u64::MAX), 18446744073709551616.0f64.to_bits());
    assert_eq!(u64_to_float(9007199254740993), 9007199254740992.0f64.to_bits());
    assert_eq!(u64_to_float(9007199254740995), 9007199254740996.0f64.to_bits());
    assert_eq!(Number::NegInt(i64::MIN).to_float(), (-9223372036854775808.0f64).to_bits());
}

#[test]
fn order_is_the_order_of_doubles() {
    let mut state = 11;
    for _ in 0..20_000 {
        let a = sample(&mut state);
        let b = sample(&mut state);
        let (x, y) = (f64::from_bits(a), f64::from_bits(b));
        let (na, nb) = (Number::Float(a), Number::Float(b));
        assert_eq!(na.lt(&nb), x < y, "{} {}", x, y);
        assert_eq!(na.le(&nb), x <= y, "{} {}", x, y);
        assert_eq!(na.same_value(&nb), x == y, "{} {}", x, y);
        let u = next(&mut state) >> (next(&mut state) % 64);
        assert_eq!(Number::PosInt(u).lt(&nb), (u as f64) < y);
        assert_eq!(nb.le(&Number::PosInt(u)), y <= (u as f64));
        let i = -((next(&mut state) >> 1 >> (next(&mut state) % 63)) as i64) - 1;
        assert_eq!(Number::NegInt(i).lt(&nb), (i as f64) < y);
        assert_eq!(Number::NegInt(i).same_value(&Number::Float((i as f64).to_bits())), true);
    }
    assert!(Number::Float(0.0f64.to_bits()).same_value(&Number::Float((-0.0f64).to_bits())));
    assert!(Number::PosInt(3).lt(&Number::Float(3.5f64.to_bits())));
    assert!(!Number::PosInt(9007199254740993).lt(&Number::Float(9007199254740992.0f64.to_bits())));
    assert!(Number::PosInt(9007199254740993).same_value(&Number::PosInt(9007199254740992)));
    assert!(Number::NegInt(-1).lt(&Number::PosInt(0)));
    assert_eq!(Number::Float(2.5f64.to_bits()).order_key(), 2.5f64.to_bits() as i128);
    assert_eq!(Number::Float((-2.5f64).to_bits()).order_key(), -(2.5f64.to_bits() as i128));
}

#[test]
fn whole_doubles_are_told_from_fractions() {
    let mut state = 13;
    for _ in 0..20_000 {
        let a = sample(&mut state);
        let x = f64::from_bits(a);
        assert_eq!(Number::Float(a).integral(), x.trunc() == x, "{}", x);
    }
    assert!(Number::PosInt(7).integral());
    assert!(Number::NegInt(-7).integral());
    assert!(Number::Float(1e10f64.to_bits()).integral());
    assert!(Number::Float(0.0f64.to_bits()).integral());
    assert!(!Number::Float(1.5f64.to_bits()).integral());
    assert!(!Number::Float(f64::MIN_POSITIVE.to_bits()).integral());
}

#[test]
fn multiples_are_the_quotients_without_fraction() {
    let mut state = 17;
    let mut whole = 0;
    for _ in 0..40_000 {
        let a = sample(&mut state);
        let b = sample(&mut state);
        let (x, y) = (f64::from_bits(a), f64::from_bits(b));
        let got = Number::Float(a).multiple_of(&Number::Float(b));
        if y == 0.0 {
            assert!(!got);
            continue;
        }
        let quotient = x / y;
        assert_eq!(got, quotient.trunc() == quotient, "{:e} / {:e} = {:e}", x, y, quotient);
        if got {
            whole += 1;
        }
        let u = next(&mut state) >> (next(&mut state) % 64);
        let mixed = (u as f64) / y;
        assert_eq!(Number::PosInt(u).multiple_of(&Number::Float(b)), mixed.trunc() == mixed);
        if u != 0 {
            let other = x / (u as f64);
            assert_eq!(Number::Float(a).multiple_of(&Number::PosInt(u)), other.trunc() == other);
        }
    }
    assert!(whole > 1000);
    for (x, y) in [
        (0.0075, 0.0001),
        (0.07, 0.01),
        (1e308, 1e-308),
        (5e-324, 1e308),
        (5e-324, 5e-324),
        (1.0, 3.0),
        (3.0, 1.0),
        (0.9999999999999999, 1.0),
        (1.0, 0.9999999999999999),
        (4.450147717014403e-308, 2.0),
        (2.2250738585072014e-308, 4.0),
        (1.0, 1.7976931348623157e308),
        (9007199254740991.0, 2.0),
        (9007199254740992.0, 0.5),
        (4503599627370497.0, 2.0),
        (0.3, 0.1),
        (0.5, 0.1),
    ] {
        let quotient: f64 = x / y;
        assert_eq!(
            Number::Float(x.to_bits()).multiple_of(&Number::Float(y.to_bits())),
            quotient.trunc() == quotient,
            "{:e} / {:e}",
            x,
            y
        );
        assert_eq!(
            Number::Float((-x).to_bits()).multiple_of(&Number::Float(y.to_bits())),
            quotient.trunc() == quotient
        );
    }
    assert!(Number::PosInt(9).multiple_of(&Number::PosInt(3)));
    assert!(!Number::PosInt(10).multiple_of(&Number::PosInt(3)));
    assert!(Number::NegInt(-9).multiple_of(&Number::PosInt(3)));
    assert!(Number::PosInt(9).multiple_of(&Number::NegInt(-3)));
    assert!(Number::NegInt(i64::MIN).multiple_of(&Number::NegInt(-1)));
    assert!(Number::PosInt(0).multiple_of(&Number::PosInt(5)));
    assert!(!Number::PosInt(5).multiple_of(&Number::PosInt(0)));
    assert!(!Number::PosInt(0).multiple_of(&Number::PosInt(0)));
    assert!(!Number::Float(1.0f64.to_bits()).multiple_of(&Number::Float(0.0f64.to_bits())));
    assert!(Number::Float(0.0f64.to_bits()).multiple_of(&Number::Float(2.5f64.to_bits())));
    assert!(Number::PosInt(18446744073709551615).multiple_of(&Number::PosInt(5)));
}

#[test]
fn numbers_are_written_for_messages() {
    assert_eq!(Number::PosInt(0).to_text(), "0");
    assert_eq!(Number::PosInt(18446744073709551615).to_text(), "18446744073709551615");
    assert_eq!(Number::NegInt(-1).to_text(), "-1");
    assert_eq!(Number::NegInt(i64::MIN).to_text(), "-9223372036854775808");
    assert_eq!(Number::Float(0.0f64.to_bits()).to_text(), "0.0");
    assert_eq!(Number::Float((-0.0f64).to_bits()).to_text(), "-0.0");
    assert_eq!(Number::Float(1.0f64.to_bits()).to_text(), "1.0");
    assert_eq!(Number::Float((-12.0f64).to_bits()).to_text(), "-12.0");
    assert_eq!(Number::Float(1e10f64.to_bits()).to_text(), "10000000000.0");
    assert_eq!(Number::Float(9007199254740992.0f64.to_bits()).to_text(), "9007199254740992.0");
    assert_eq!(Number::Float(18446744073709549568.0f64.to_bits()).to_text(), "18446744073709549568.0");
    assert_eq!(Number::Float(18446744073709551616.0f64.to_bits()).to_text(), "1*2^64");
    assert_eq!(Number::Float(2.5f64.to_bits()).to_text(), "5*2^-1");
    assert_eq!(Number::Float((-0.75f64).to_bits()).to_text(), "-3*2^-2");
    assert_eq!(Number::Float(0.1f64.to_bits()).to_text(), "3602879701896397*2^-55");
    assert_eq!(Number::Float(5e-324f64.to_bits()).to_text(), "1*2^-1074");
    assert_eq!(u64_to_string(1234567890), "1234567890");
    assert_eq!(u64_to_string(9), "9");
    assert_eq!(u64_to_string(10), "10");
    assert_eq!(usize_to_string(42), "42");
    assert_eq!(i64_to_string(-42), "-42");
    assert_eq!(i64_to_string(42), "42");
    assert_eq!(i64_to_string(0), "0");
    for n in 0..2000u64 {
        assert_eq!(u64_to_string(n * 7919), (n * 7919).to_string());
        assert_eq!(i64_to_string(-((n * 104729) as i64)), (-((n * 104729) as i64)).to_string());
    }
}
