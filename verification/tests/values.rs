use rinfluxdb::types::{Float64, Instant, Value};

fn next(state: &mut u64) -> u64 {
    *state = state.wrapping_mul(6364136223846793005).wrapping_add(1442695040888963407);
    let mut x = *state;
    x ^= x >> 29;
    x = x.wrapping_mul(0xbf58476d1ce4e5b9);
    x ^= x >> 32;
    x
}

#[test]
fn unsigned_to_float_matches_the_machine() {
    let mut samples: Vec<u64> = vec![
        0,
        1,
        2,
        3,
        (1 << 52) - 1,
        1 << 52,
        (1 << 53) - 1,
        1 << 53,
        (1 << 53) + 1,
        (1 << 53) + 2,
        (1 << 53) + 3,
        (1 << 54) - 1,
        (1 << 54) + 2,
        (1 << 54) + 6,
        u64::MAX,
        u64::MAX - 1023,
        u64::MAX - 1024,
        u64::MAX - 2048,
        1 << 63,
        (1 << 63) + 1024,
        (1 << 63) + 1025,
        (1 << 63) + 3072,
    ];
    let mut state = 7;
    for _ in 0..20000 {
        let x = next(&mut state);
        let shift = next(&mut state) % 64;
        samples.push(x >> shift);
    }
    for n in samples {
        assert_eq!(Float64::from_u64(n).to_bits(), (n as f64).to_bits(), "{}", n);
    }
}

#[test]
fn signed_to_float_matches_the_machine() {
    let mut samples: Vec<i64> = vec![
        0,
        1,
        -1,
        42,
        -42,
        i64::MAX,
        i64::MIN,
        i64::MIN + 1,
        (1 << 53) + 1,
        -((1 << 53) + 1),
        -((1 << 53) + 3),
    ];
    let mut state = 11;
    for _ in 0..20000 {
        let x = next(&mut state) as i64;
        let shift = next(&mut state) % 64;
        samples.push(x >> shift);
    }
    for n in samples {
        assert_eq!(Float64::from_i64(n).to_bits(), (n as f64).to_bits(), "{}", n);
    }
}

#[test]
fn float_to_signed_matches_the_machine() {
    let mut samples: Vec<f64> = vec![
        0.0,
        -0.0,
        0.5,
        -0.5,
        0.999999,
        1.0,
        -1.0,
        1.5,
        -1.5,
        42.0,
        42.9,
        -42.9,
        12.5,
        1e10,
        -1e10,
        4503599627370496.0,
        4503599627370497.0,
        9007199254740993.0,
        9223372036854775807.0,
        9223372036854775808.0,
        -9223372036854775808.0,
        -9223372036854777856.0,
        9223372036854774784.0,
        1e19,
        -1e19,
        1e300,
        -1e300,
        f64::INFINITY,
        f64::NEG_INFINITY,
        f64::NAN,
        f64::MIN_POSITIVE,
        5e-324,
        f64::MAX,
        f64::MIN,
    ];
    let mut state = 13;
    for _ in 0..20000 {
        samples.push(f64::from_bits(next(&mut state)));
        let exponent = 1000 + next(&mut state) % 100;
        let fraction = next(&mut state) >> 12;
        let sign = next(&mut state) >> 63;
        samples.push(f64::from_bits((sign << 63) | (exponent << 52) | fraction));
    }
    for x in samples {
        assert_eq!(Float64::from_bits(x.to_bits()).to_i64(), x as i64, "{}", x);
    }
}

#[test]
fn narrowing_keeps_matching_values() {
    assert_eq!(Value::Integer(-7).into_i64(), -7);
    assert_eq!(Value::UnsignedInteger(7).into_u64(), 7);
    assert!(Value::Boolean(true).into_boolean());
    assert_eq!(Value::String("text".to_string()).into_string(), "text");
    let instant = Instant::from_timestamp(1488327378, 0).unwrap();
    assert_eq!(Value::Timestamp(instant).into_timestamp(), instant);
    let half = Float64::from_bits(0.5f64.to_bits());
    assert_eq!(Value::Float(half).into_f64(), half);
}

#[test]
fn narrowing_between_numbers() {
    assert_eq!(Value::Integer(42).into_f64().to_bits(), 42.0f64.to_bits());
    assert_eq!(Value::UnsignedInteger(42).into_f64().to_bits(), 42.0f64.to_bits());
    assert_eq!(Value::UnsignedInteger(u64::MAX).into_i64(), -1);
    assert_eq!(Value::UnsignedInteger(1 << 63).into_i64(), i64::MIN);
    assert_eq!(Value::Float(Float64::from_bits(42.9f64.to_bits())).into_i64(), 42);
    assert_eq!(Value::Float(Float64::from_bits((-42.9f64).to_bits())).into_i64(), -42);
}

#[test]
fn instants_round_trip_through_text() {
    let instant = Instant::parse("2017-03-01T00:16:18Z").unwrap();
    assert_eq!(instant.timestamp(), 1488327378);
    assert_eq!(instant.timestamp_subsec_nanos(), 0);
    assert_eq!(instant.to_rfc3339(), "2017-03-01T00:16:18Z");
    assert_eq!(instant.timestamp_nanos(), Some(1488327378000000000));
    let fine = Instant::parse("2017-03-01 00:16:18.25+01:00").unwrap();
    assert_eq!(fine.timestamp(), 1488327378 - 3600);
    assert_eq!(fine.timestamp_subsec_nanos(), 250_000_000);
    assert_eq!(fine.to_rfc3339(), "2017-02-28T23:16:18.250Z");
    assert!(Instant::parse("yesterday").is_err());
}

#[test]
fn instants_out_of_range() {
    assert!(Instant::from_timestamp(i64::MAX, 0).is_none());
    assert!(Instant::from_timestamp(0, 2_000_000_000).is_none());
    let late = Instant::from_timestamp(10_000_000_000, 5).unwrap();
    assert_eq!(late.timestamp_nanos(), None);
    let early = Instant::from_timestamp(-1, 999_999_999).unwrap();
    assert_eq!(early.timestamp_nanos(), Some(-1));
}

#[test]
fn small_integers_survive_the_double() {
    for n in [0i64, 1, -1, 4503599627370496, 9007199254740991, -9007199254740991, 123456789] {
        assert_eq!(Float64::from_i64(n).to_i64(), n);
    }
    assert_eq!(Float64::from_u64((1 << 53) + 1).to_i64(), 1 << 53);
    assert_eq!(Float64::from_u64((1 << 53) + 3).to_i64(), (1 << 53) + 4);
    assert_eq!(Float64::from_u64(u64::MAX).to_i64(), i64::MAX);
}
