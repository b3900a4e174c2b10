use js_bridge::numbits::{int32_of_bits, bits_of_i32, trunc_i64_of_bits};

fn b(x: f64) -> u64 {
    x.to_bits()
}

#[test]
fn int32_classification_of_small_integers() {
    assert_eq!(int32_of_bits(b(0.0)), Some(0));
    assert_eq!(int32_of_bits(b(1.0)), Some(1));
    assert_eq!(int32_of_bits(b(-1.0)), Some(-1));
    assert_eq!(int32_of_bits(b(3.0)), Some(3));
    assert_eq!(int32_of_bits(b(-42.0)), Some(-42));
    assert_eq!(int32_of_bits(b(1048576.0)), Some(1 << 20));
}

#[test]
fn negative_zero_is_not_an_engine_integer() {
    // a signed integer cannot keep the sign of zero: the pattern stays a
    // number, so the sign survives the round trip
    assert_eq!(int32_of_bits(b(-0.0)), None);
    assert_eq!(int32_of_bits(b(0.0)), Some(0));
}

#[test]
fn int32_range_limits() {
    assert_eq!(int32_of_bits(b(2147483647.0)), Some(i32::MAX));
    assert_eq!(int32_of_bits(b(-2147483648.0)), Some(i32::MIN));
    assert_eq!(int32_of_bits(b(2147483648.0)), None);
    assert_eq!(int32_of_bits(b(-2147483649.0)), None);
}

#[test]
fn fractional_and_special_patterns_are_not_int32() {
    assert_eq!(int32_of_bits(b(0.5)), None);
    assert_eq!(int32_of_bits(b(3.5)), None);
    assert_eq!(int32_of_bits(b(-2.25)), None);
    assert_eq!(int32_of_bits(b(f64::NAN)), None);
    assert_eq!(int32_of_bits(b(f64::INFINITY)), None);
    assert_eq!(int32_of_bits(b(f64::NEG_INFINITY)), None);
    assert_eq!(int32_of_bits(b(1.0e300)), None);
    assert_eq!(int32_of_bits(b(5.0e-324)), None); // smallest subnormal
    assert_eq!(int32_of_bits(b(4503599627370496.0)), None); // 2^52
}

#[test]
fn encode_decode_round_trip() {
    for n in [
        0i32,
        1,
        -1,
        7,
        -7,
        1000,
        -123456,
        i32::MAX,
        i32::MIN,
        i32::MAX - 1,
        i32::MIN + 1,
    ] {
        let bits = bits_of_i32(n);
        assert_eq!(bits, (n as f64).to_bits());
        assert_eq!(int32_of_bits(bits), Some(n));
    }
}

#[test]
fn truncation_toward_zero() {
    assert_eq!(trunc_i64_of_bits(b(0.0)), Some(0));
    assert_eq!(trunc_i64_of_bits(b(-0.0)), Some(0));
    assert_eq!(trunc_i64_of_bits(b(0.75)), Some(0));
    assert_eq!(trunc_i64_of_bits(b(-0.75)), Some(0));
    assert_eq!(trunc_i64_of_bits(b(2.5)), Some(2));
    assert_eq!(trunc_i64_of_bits(b(-2.5)), Some(-2));
    assert_eq!(trunc_i64_of_bits(b(4294967296.5)), Some(4294967296));
    assert_eq!(trunc_i64_of_bits(b(4611686018427387904.0)), Some(1 << 62));
}

#[test]
fn truncation_limits_and_specials() {
    assert_eq!(trunc_i64_of_bits(b(f64::NAN)), None);
    assert_eq!(trunc_i64_of_bits(b(f64::INFINITY)), None);
    assert_eq!(trunc_i64_of_bits(b(f64::NEG_INFINITY)), None);
    assert_eq!(trunc_i64_of_bits(b(1.0e300)), None);
    assert_eq!(trunc_i64_of_bits(b(-1.0e300)), None);
    // exactly -2^63 fits; 2^63 does not
    assert_eq!(trunc_i64_of_bits(b(-9223372036854775808.0)), Some(i64::MIN));
    assert_eq!(trunc_i64_of_bits(b(9223372036854775808.0)), None);
}
