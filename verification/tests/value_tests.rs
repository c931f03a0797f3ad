//! Tests of the bit-level value logic against the host's own doubles.

use ps_function::Value;

fn v(x: f64) -> Value {
    Value { bits: x.to_bits() }
}

#[test]
fn integer_decoding_matches_the_host_doubles() {
    assert_eq!(v(0.0).exec_to_int(), Some(0));
    assert_eq!(v(-0.0).exec_to_int(), Some(0));
    assert_eq!(v(1.0).exec_to_int(), Some(1));
    assert_eq!(v(-1.0).exec_to_int(), Some(-1));
    assert_eq!(v(3.0).exec_to_int(), Some(3));
    assert_eq!(v(-2.0).exec_to_int(), Some(-2));
    assert_eq!(v(123456789.0).exec_to_int(), Some(123456789));
    assert_eq!(v(2147483648.0).exec_to_int(), Some(2147483648));
    assert_eq!(v(-2147483648.0).exec_to_int(), Some(-2147483648));
    // The largest range in which every integer is exactly one pattern.
    assert_eq!(v(9007199254740991.0).exec_to_int(), Some(9007199254740991));
}

#[test]
fn non_integers_do_not_decode() {
    assert_eq!(v(0.5).exec_to_int(), None);
    assert_eq!(v(-2.7).exec_to_int(), None);
    assert_eq!(v(f64::NAN).exec_to_int(), None);
    assert_eq!(v(f64::INFINITY).exec_to_int(), None);
    assert_eq!(v(f64::NEG_INFINITY).exec_to_int(), None);
    assert_eq!(v(f64::MIN_POSITIVE / 2.0).exec_to_int(), None);
    // Beyond 2^53 integers are no longer uniquely encoded and are refused.
    assert_eq!(v(9007199254740992.0).exec_to_int(), None);
}

#[test]
fn integer_encoding_matches_the_host_doubles() {
    for n in [0i64, 1, -1, 2, 3, 7, 100, -100, 65535, -65536, 2147483647, -2147483648] {
        assert_eq!(Value::from_small_int(n).bits, (n as f64).to_bits());
    }
    assert_eq!(Value::from_small_int(2147483648).bits, (2147483648.0f64).to_bits());
}

#[test]
fn comparisons_match_the_host_doubles() {
    let samples = [
        0.0,
        -0.0,
        1.0,
        -1.0,
        0.5,
        -0.5,
        2.5,
        1.0e300,
        -1.0e300,
        f64::INFINITY,
        f64::NEG_INFINITY,
        f64::NAN,
        f64::MIN_POSITIVE,
        -f64::MIN_POSITIVE,
    ];
    for a in samples {
        for b in samples {
            assert_eq!(v(a).exec_eq(v(b)), a == b, "eq {a} {b}");
            assert_eq!(v(a).exec_lt(v(b)), a < b, "lt {a} {b}");
        }
    }
}

#[test]
fn classification_matches_the_host_doubles() {
    let samples = [
        0.0,
        -0.0,
        1.0,
        -1.0,
        f64::INFINITY,
        f64::NEG_INFINITY,
        f64::NAN,
        f64::MIN_POSITIVE,
        -f64::MIN_POSITIVE,
    ];
    for a in samples {
        assert_eq!(v(a).exec_is_zero(), a == 0.0, "zero {a}");
        assert_eq!(v(a).exec_is_finite(), a.is_finite(), "finite {a}");
        assert_eq!(v(a).exec_is_negative(), a < 0.0, "negative {a}");
    }
}

#[test]
fn from_bits_round_trips() {
    let x = 2.718281828459045f64;
    assert_eq!(f64::from_bits(Value::from_bits(x.to_bits()).bits), x);
}
