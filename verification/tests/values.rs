use grove::environment::Environment;
use grove::error::{ErrorKind, GroveError};
use grove::number::{
    capped, equal, from_len, less, less_eq, nan, negate, negative, positive, to_index,
    whole_magnitude,
    zero,
};
use grove::text::{chars_of, push_decimal, push_text, str_equal, string_of, text_less};
use grove::types::{Table, Value};

fn num(x: f64) -> Value {
    Value::Number(x.to_bits())
}

fn plain(bits: u64) -> String {
    format!("{}", f64::from_bits(bits))
}

#[test]
fn test_define_and_get() {
    let mut env = Environment::new();
    env.define("x", num(42.0));
    assert_eq!(env.get("x"), Some(&num(42.0)));
}

#[test]
fn number_conversions_agree_with_the_machine() {
    let samples: Vec<usize> = vec![0, 1, 2, 3, 7, 1000, 1 << 52, (1 << 53) - 1, 1 << 53, (1 << 53) + 1, (1 << 53) + 2, (1 << 53) + 3, (1 << 54) + 2, (1 << 54) + 6, usize::MAX, usize::MAX - 1024, usize::MAX - 2048, 0x7FFF_FFFF_FFFF_FC00, 0x7FFF_FFFF_FFFF_FE00];
    for n in samples {
        assert_eq!(from_len(n), (n as f64).to_bits(), "from_len({})", n);
    }
    let floats: Vec<f64> = vec![0.0, -0.0, 0.5, 0.999, 1.0, 1.5, 2.0, 3.99, 1e3, 1e15, 9007199254740993.0, 1e19, 1.8446744073709552e19, 1e20, 1e300, f64::INFINITY, f64::NEG_INFINITY, f64::NAN, -1.0, -1e30, 4503599627370496.5, 1.2345e18];
    for x in floats {
        // A number names the index that is its integer part, unless it is a
        // NaN, lies at -1 or below, or at the largest length or beyond.
        let named = if x.is_nan() || x <= -1.0 || x as usize == usize::MAX {
            None
        } else {
            Some(x as usize)
        };
        assert_eq!(to_index(x.to_bits()), named, "to_index({})", x);
        let part = if x < 0.0 { (-x) as usize } else { x as usize };
        assert_eq!(capped(x.to_bits()), part, "capped({})", x);
    }
    assert_eq!(to_index((-0.0f64).to_bits()), Some(0));
    assert_eq!(to_index((-0.75f64).to_bits()), Some(0));
    assert_eq!(to_index((-1.0f64).to_bits()), None);
    assert_eq!(to_index(2.5f64.to_bits()), Some(2));
    assert_eq!(capped((-3.5f64).to_bits()), 3);
}

#[test]
fn value_text_forms() {
    assert_eq!(num(25.0).to_text(&plain), "25");
    assert_eq!(num(-0.0).to_text(&plain), "0");
    assert_eq!(num(2.5).to_text(&plain), "2.5");
    assert_eq!(num(9223372036854775808.0).to_text(&plain), "9223372036854775807");
    assert_eq!(Value::Vec3(1f64.to_bits(), (-0.0f64).to_bits(), 3.5f64.to_bits()).to_text(&plain), "vec3(1, -0, 3.5)");
    assert_eq!(Value::Array(vec![num(1.0), Value::Nil, Value::Bool(true)]).to_text(&plain), "[1, nil, true]");
    let mut t = Table::new();
    t.insert("a", num(1.0));
    t.insert("b", Value::String("x".to_string()));
    t.insert("a", num(2.0));
    assert_eq!(Value::Table(t).to_text(&plain), "{a = 2, b = x}");
    assert_eq!(Value::Object(77).to_text(&plain), "<object:77>");
    let e = GroveError::syntax("bad", 3, 14);
    assert_eq!(e.kind, ErrorKind::Syntax);
    assert_eq!(e.to_text(), "[line 3:14] Syntax: bad");
}

#[test]
fn numbers_print_as_integers_where_they_are_integers() {
    let samples: Vec<f64> = vec![
        0.0, -0.0, 1.0, -1.0, 25.0, 0.5, -2.5, 1e15, 1e16, 123456789012345680.0, 9007199254740993.0,
        4611686018427387904.0, -4611686018427387904.0, 9223372036854774784.0, 4503599627370497.0,
        4503599627370495.5, 1023.999, 1024.0, 0.999, 2251799813685248.5, 7.0, 1e18, -1e18, 1e10,
        9223372036854775807.0, 9223372036854775808.0, -9223372036854775808.0, 9223372036854777856.0,
        1e19, 1e20, -1e20, 1e300, 1.5e-7, 5e-324, f64::MAX, f64::MIN, f64::INFINITY,
        f64::NEG_INFINITY, f64::NAN, 3.14, 1.0 / 3.0, 4503599627370496.5,
    ];
    for n in samples {
        let expected = if n == (n as i64) as f64 && n.is_finite() {
            format!("{}", n as i64)
        } else {
            format!("{}", n)
        };
        assert_eq!(num(n).to_text(&plain), expected, "{:?}", n);
    }
}

#[test]
fn whole_magnitudes() {
    for n in [0.0f64, -0.0, 1.0, -3.0, 4503599627370496.0, 9223372036854774784.0] {
        assert_eq!(whole_magnitude(n.to_bits()), Some(n.abs() as u64), "{:?}", n);
    }
    for n in [0.5f64, -1.5, 9223372036854775808.0, -9223372036854775808.0, 1e300, f64::INFINITY, f64::NAN, 5e-324] {
        assert_eq!(whole_magnitude(n.to_bits()), None, "{:?}", n);
    }
}

#[test]
fn numbers_compare_as_floats_do() {
    let samples: Vec<f64> = vec![
        0.0, -0.0, 1.0, -1.0, 0.5, -0.5, 2.0, 1e300, -1e300, 5e-324, -5e-324, f64::INFINITY,
        f64::NEG_INFINITY, f64::NAN, -f64::NAN, f64::MAX, f64::MIN, 1.0000000000000002,
    ];
    for &a in &samples {
        assert_eq!(nan(a.to_bits()), a.is_nan(), "{:?}", a);
        assert_eq!(zero(a.to_bits()), a == 0.0, "{:?}", a);
        assert_eq!(positive(a.to_bits()), a > 0.0, "{:?}", a);
        assert_eq!(negative(a.to_bits()), a < 0.0, "{:?}", a);
        assert_eq!(negate(a.to_bits()), (-a).to_bits(), "{:?}", a);
        for &b in &samples {
            assert_eq!(equal(a.to_bits(), b.to_bits()), a == b, "{:?} == {:?}", a, b);
            assert_eq!(less(a.to_bits(), b.to_bits()), a < b, "{:?} < {:?}", a, b);
            assert_eq!(less_eq(a.to_bits(), b.to_bits()), a <= b, "{:?} <= {:?}", a, b);
        }
    }
}

#[test]
fn tables_keep_the_order_of_first_storing() {
    let mut t = Table::new();
    assert_eq!(t.len(), 0);
    assert!(t.get("a").is_none());
    t.insert("b", num(1.0));
    t.insert("a", num(2.0));
    t.insert("b", num(3.0));
    assert_eq!(t.len(), 2);
    assert_eq!(t.key_at(0), "b");
    assert_eq!(t.value_at(0), &num(3.0));
    assert_eq!(t.key_at(1), "a");
    assert_eq!(t.position("a"), Some(1));
    assert_eq!(t.position("c"), None);
    assert!(t.contains_key("a"));
    assert!(!t.contains_key(""));
    assert_eq!(t.get("a"), Some(&num(2.0)));
    let copy = t.clone();
    t.insert("a", Value::Nil);
    assert_eq!(copy.get("a"), Some(&num(2.0)));
    assert_eq!(t.get("a"), Some(&Value::Nil));
}

#[test]
fn text_helpers() {
    let chars = chars_of("héllo");
    assert_eq!(chars, vec!['h', 'é', 'l', 'l', 'o']);
    assert_eq!(string_of(&chars, 1, 4), "éll");
    assert_eq!(string_of(&chars, 2, 2), "");
    let mut s = String::from("n=");
    push_decimal(&mut s, 0);
    push_text(&mut s, ",");
    push_decimal(&mut s, 907);
    push_text(&mut s, ",");
    push_decimal(&mut s, u64::MAX);
    assert_eq!(s, "n=0,907,18446744073709551615");
    assert!(str_equal("a", "a"));
    assert!(!str_equal("a", "b"));
    for (a, b) in [("", ""), ("", "a"), ("a", ""), ("a", "b"), ("ab", "a"), ("a", "ab"), ("é", "z"), ("Z", "a"), ("abc", "abd")] {
        assert_eq!(text_less(a, b), a < b, "{:?} < {:?}", a, b);
    }
}

#[test]
fn lengths_survive_the_way_to_numbers_and_back() {
    for n in [0usize, 1, 2, 3, 255, 65536, 1 << 31, (1 << 52) - 1, 1 << 52, (1 << 53) - 1] {
        let bits = from_len(n);
        assert_eq!(to_index(bits), Some(n));
        assert_eq!(whole_magnitude(bits), Some(n as u64));
        assert_eq!(num(n as f64), Value::Number(bits));
    }
}

#[test]
fn whole_numbers_print_without_the_formatter() {
    let never = |_: u64| -> String { "unused".to_string() };
    assert_eq!(num(25.0).to_text(&never), "25");
    assert_eq!(num(-3.0).to_text(&never), "-3");
    assert_eq!(num(-0.0).to_text(&never), "0");
    assert_eq!(num(9223372036854775808.0).to_text(&never), "9223372036854775807");
    assert_eq!(Value::Array(vec![num(1.0), Value::Nil, Value::Bool(true)]).to_text(&never), "[1, nil, true]");
    let mut t = Table::new();
    t.insert("a", num(7.0));
    t.insert("b", Value::String("x".to_string()));
    assert_eq!(Value::Table(t).to_text(&never), "{a = 7, b = x}");
    // Every other number, and every vector, is printed by the formatter.
    assert_eq!(num(0.5).to_text(&never), "unused");
    assert_eq!(Value::Vec3(num_bits(1.0), num_bits(2.0), num_bits(3.0)).to_text(&never), "vec3(unused, unused, unused)");
}

fn num_bits(x: f64) -> u64 {
    x.to_bits()
}
