use lucas::number::{
    is_nan, is_negative, is_zero, less, less_eq, magnitude, near_zero, negate, truncate, whole,
};
use lucas::numeral::{digits, double, push_doubled};
use lucas::text::{char_text, join_texts, push_decimal, push_signed_decimal};

fn samples() -> Vec<f64> {
    vec![
        0.0,
        -0.0,
        1.0,
        -1.0,
        0.5,
        -0.5,
        1.5,
        2.0,
        -2.0,
        1e-10,
        9.9e-11,
        1.1e-10,
        -1e-10,
        1e10,
        -1e10,
        123456789.987,
        4503599627370496.0,
        9007199254740992.0,
        9223372036854775807.0,
        -9223372036854775808.0,
        1e19,
        -1e19,
        1e300,
        -1e300,
        5e-324,
        -5e-324,
        f64::MAX,
        f64::MIN,
        f64::MIN_POSITIVE,
        f64::INFINITY,
        f64::NEG_INFINITY,
        f64::NAN,
        -f64::NAN,
    ]
}

#[test]
fn zero_has_two_patterns() {
    assert!(is_zero(0.0f64.to_bits()));
    assert!(is_zero((-0.0f64).to_bits()));
    for x in samples() {
        assert_eq!(is_zero(x.to_bits()), x == 0.0, "{}", x);
    }
}

#[test]
fn sign_and_magnitude() {
    for x in samples() {
        assert_eq!(is_negative(x.to_bits()), x.is_sign_negative(), "{}", x);
        assert_eq!(magnitude(x.to_bits()), x.abs().to_bits(), "{}", x);
        assert_eq!(is_nan(x.to_bits()), x.is_nan(), "{}", x);
    }
}

#[test]
fn negation_flips_the_sign_bit() {
    for x in samples() {
        assert_eq!(negate(x.to_bits()), (-x).to_bits(), "{}", x);
    }
    assert_eq!(negate(3.0f64.to_bits()), (-3.0f64).to_bits());
}

#[test]
fn order_is_that_of_the_values() {
    for a in samples() {
        for b in samples() {
            assert_eq!(less(a.to_bits(), b.to_bits()), a < b, "{} < {}", a, b);
            assert_eq!(less_eq(a.to_bits(), b.to_bits()), a <= b, "{} <= {}", a, b);
        }
    }
}

#[test]
fn the_tolerance_of_equality() {
    for x in samples() {
        assert_eq!(near_zero(x.to_bits()), x.abs() < 1e-10, "{}", x);
    }
    assert!(near_zero(0.0f64.to_bits()));
    assert!(!near_zero(1e-10f64.to_bits()));
}

#[test]
fn truncation_goes_toward_zero_and_saturates() {
    for x in samples() {
        assert_eq!(truncate(x.to_bits()), x as i64, "{}", x);
    }
    assert_eq!(truncate(1.9f64.to_bits()), 1);
    assert_eq!(truncate((-1.9f64).to_bits()), -1);
    assert_eq!(truncate(0.99f64.to_bits()), 0);
    assert_eq!(truncate(f64::NAN.to_bits()), 0);
    assert_eq!(truncate(1e300f64.to_bits()), i64::MAX);
    assert_eq!(truncate((-1e300f64).to_bits()), i64::MIN);
    assert_eq!(truncate(1048576.75f64.to_bits()), 1048576);
}

#[test]
fn the_whole_part_keeps_sign_and_kind() {
    for x in samples() {
        assert_eq!(whole(x.to_bits()), x.trunc().to_bits(), "{}", x);
    }
    for x in [1.9f64, -1.9, 0.99, -0.99, 1048576.75, 4503599627370495.5, 2.5e15, 3.0] {
        assert_eq!(whole(x.to_bits()), x.trunc().to_bits(), "{}", x);
        assert_eq!(f64::from_bits(whole(x.to_bits())), x.trunc());
    }
}

#[test]
fn decimal_numerals() {
    for n in [0u64, 7, 10, 99, 100, 12345, u64::MAX] {
        let mut s = String::from(">");
        push_decimal(&mut s, n);
        assert_eq!(s, format!(">{}", n));
    }
    for n in [0i64, -1, 1, -10, i64::MAX, i64::MIN] {
        let mut s = String::new();
        push_signed_decimal(&mut s, n);
        assert_eq!(s, format!("{}", n));
    }
}

#[test]
fn texts_are_joined() {
    let parts: Vec<String> = vec!["a".to_string(), "".to_string(), "c".to_string()];
    assert_eq!(join_texts(&parts, ", "), "a, , c");
    assert_eq!(join_texts(&parts[..1].to_vec(), ", "), "a");
    assert_eq!(join_texts(&Vec::new(), ", "), "");
    assert_eq!(char_text('ã'), "ã");
}

#[test]
fn large_numerals_by_doubling() {
    for (n, k) in [(0u64, 0u64), (0, 5), (1, 0), (1, 10), (7, 3), (5, 1), (999, 64), (u64::MAX, 0), (u64::MAX, 60)] {
        let mut s = String::from("=");
        push_doubled(&mut s, n, k);
        assert_eq!(s, format!("={}", (n as u128) << k), "{} {}", n, k);
    }
    assert_eq!(digits(0), vec![0]);
    assert_eq!(digits(1905), vec![5, 0, 9, 1]);
    assert_eq!(double(&vec![5, 0, 9, 1]), vec![0, 1, 8, 3]);
    assert_eq!(double(&vec![9, 9]), vec![8, 9, 1]);
    assert_eq!(double(&vec![0]), vec![0]);
}
