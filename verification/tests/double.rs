use zigbee2mqtt_operator::double::Double;

const SAMPLES: [f64; 24] = [
    0.0,
    -0.0,
    1.0,
    -1.0,
    0.1,
    0.2,
    0.3,
    2.5,
    1e-300,
    -1e-300,
    5e-324,
    2.2250738585072014e-308,
    2.225073858507201e-308,
    1e15,
    9007199254740991.0,
    9007199254740992.0,
    9007199254740994.0,
    1.0000000000000002,
    0.9999999999999999,
    1e300,
    -1e300,
    1.7976931348623157e308,
    -1.7976931348623157e308,
    123456.789,
];

fn double(value: f64) -> Double {
    Double::from_bits(value.to_bits()).unwrap()
}

#[test]
fn not_finite_is_no_double() {
    assert!(Double::from_bits(f64::INFINITY.to_bits()).is_none());
    assert!(Double::from_bits(f64::NEG_INFINITY.to_bits()).is_none());
    assert!(Double::from_bits(f64::NAN.to_bits()).is_none());
}

#[test]
fn order_is_that_of_floats() {
    for a in SAMPLES {
        for b in SAMPLES {
            assert_eq!(double(a).less_than(double(b)), a < b, "{a} < {b}");
            assert_eq!(double(a).equals(double(b)), a == b, "{a} == {b}");
        }
    }
}

#[test]
fn difference_is_that_of_floats() {
    for a in SAMPLES {
        for b in SAMPLES {
            let expected = a - b;
            match double(a).minus(double(b)) {
                Some(difference) => {
                    assert!(expected.is_finite(), "{a} - {b}");
                    assert!(difference.equals(double(expected)), "{a} - {b}");
                }
                None => assert!(!expected.is_finite(), "{a} - {b}"),
            }
        }
    }
}

#[test]
fn grid_is_that_of_floats() {
    for value in SAMPLES {
        for start in [0.0, 1.0, 0.1, -2.5, 1e15, 1e300] {
            for step in SAMPLES {
                assert_eq!(
                    double(value).is_on_grid(double(start), double(step)),
                    (value - start) % step == 0.0,
                    "({value} - {start}) % {step}",
                );
            }
        }
    }
}

#[test]
fn integers_round_to_the_nearest_even() {
    for n in [
        0,
        1,
        10,
        4503599627370496,
        9007199254740991,
        9007199254740992,
        9007199254740993,
        9007199254740995,
        18014398509481985,
        18014398509481987,
        u64::MAX,
        u64::MAX - 1024,
        u64::MAX - 1023,
    ] {
        assert!(Double::from_u64(n).equals(double(n as f64)), "{n}");
    }
    for n in [0, -1, 42, -9007199254740993, i64::MIN, i64::MAX, i64::MIN + 513] {
        assert!(Double::from_i64(n).equals(double(n as f64)), "{n}");
    }
}

#[test]
fn nothing_is_a_multiple_of_zero() {
    assert!(!double(0.0).is_multiple_of(Double::zero()));
    assert!(double(0.0).is_multiple_of(double(3.0)));
    assert!(double(-9.0).is_multiple_of(double(3.0)));
    assert!(!double(10.0).is_multiple_of(double(3.0)));
}
