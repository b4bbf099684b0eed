use hayashi_plugin_sdk::float_bits::{
    is_finite, is_nonzero, large_u64_to_f64_bits, to_i64, to_u64,
};
use hayashi_plugin_sdk::text::{bool_to_string, i64_to_string};

fn samples() -> Vec<f64> {
    vec![
        0.0,
        -0.0,
        0.5,
        -0.5,
        1.0,
        -1.0,
        1.5,
        -1.5,
        2.7,
        -2.7,
        123456.789,
        -123456.789,
        4503599627370495.5,
        9007199254740993.0,
        9.2e18,
        -9.2e18,
        9.223372036854775e18,
        9223372036854775807.0,
        -9223372036854775808.0,
        1.8446744073709552e19,
        1.8e19,
        1e19,
        -1e19,
        1e300,
        -1e300,
        5e-324,
        -5e-324,
        f64::MIN_POSITIVE,
        f64::MAX,
        f64::MIN,
        f64::INFINITY,
        f64::NEG_INFINITY,
        f64::NAN,
        -f64::NAN,
    ]
}

#[test]
fn float_to_i64_matches_as_cast() {
    for f in samples() {
        assert_eq!(to_i64(f.to_bits()), f as i64, "{f}");
    }
}

#[test]
fn float_to_u64_matches_as_cast() {
    for f in samples() {
        assert_eq!(to_u64(f.to_bits()), f as u64, "{f}");
    }
}

#[test]
fn float_to_i64_exact_values() {
    assert_eq!(to_i64(2.7f64.to_bits()), 2);
    assert_eq!(to_i64((-2.7f64).to_bits()), -2);
    assert_eq!(to_i64(f64::NAN.to_bits()), 0);
    assert_eq!(to_i64(f64::INFINITY.to_bits()), i64::MAX);
    assert_eq!(to_i64(f64::NEG_INFINITY.to_bits()), i64::MIN);
    assert_eq!(to_i64(1e19f64.to_bits()), i64::MAX);
}

#[test]
fn float_nonzero_matches_comparison() {
    for f in samples() {
        assert_eq!(is_nonzero(f.to_bits()), f != 0.0, "{f}");
        assert_eq!(is_finite(f.to_bits()), f.is_finite(), "{f}");
    }
}

#[test]
fn large_u64_rounds_like_as_cast() {
    let values = [
        9223372036854775808u64,
        9223372036854775809,
        9223372036854776832,
        9223372036854777856,
        9223372036854777857,
        9223372036854778880,
        18446744073709549568,
        18446744073709550591,
        18446744073709550592,
        18446744073709551615,
        12345678901234567890,
    ];
    for u in values {
        assert_eq!(large_u64_to_f64_bits(u), (u as f64).to_bits(), "{u}");
    }
}

#[test]
fn integers_render_in_decimal() {
    assert_eq!(i64_to_string(0), "0");
    assert_eq!(i64_to_string(7), "7");
    assert_eq!(i64_to_string(-42), "-42");
    assert_eq!(i64_to_string(1234567890), "1234567890");
    assert_eq!(i64_to_string(i64::MIN), i64::MIN.to_string());
    assert_eq!(i64_to_string(i64::MAX), i64::MAX.to_string());
}

#[test]
fn booleans_render_as_words() {
    assert_eq!(bool_to_string(true), "true");
    assert_eq!(bool_to_string(false), "false");
}

