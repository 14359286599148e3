use ray_tracer_challenge::scalar::{
    Scalar, EPSILON_BITS, FOUR_FIFTHS_BITS, HALF_BITS, INFINITY_BITS, MINUS_TEN_BITS,
    NINE_TENTHS_BITS, ONE_BITS, ONE_FIFTH_BITS, ONE_TENTH_BITS, QUARTER_BITS, SEVEN_TENTHS_BITS,
    SIGN_BIT, TEN_BITS, THREE_FIFTHS_BITS, THREE_HALVES_BITS, THREE_TENTHS_BITS, TWO_BITS,
    TWO_HUNDRED_BITS,
};

fn num(x: f64) -> Scalar {
    Scalar { bits: x.to_bits() }
}

fn samples() -> Vec<f64> {
    let mut v = vec![
        0.0,
        -0.0,
        1.0,
        -1.0,
        0.5,
        -0.5,
        0.9,
        1.1,
        -0.1,
        -1.1,
        2.0,
        2.5,
        -2.5,
        3.0,
        -3.0,
        1.0e-4,
        -1.0e-4,
        1.0e-310,
        -1.0e-310,
        f64::MIN_POSITIVE,
        4503599627370496.0,
        4503599627370497.0,
        -4503599627370497.0,
        9007199254740991.0,
        9007199254740992.0,
        9223372036854775807.0,
        -9223372036854775808.0,
        9223372036854774784.0,
        -9223372036854777856.0,
        1.0e19,
        -1.0e19,
        1.0e300,
        -1.0e300,
        f64::MAX,
        f64::MIN,
        f64::INFINITY,
        f64::NEG_INFINITY,
        f64::NAN,
        -f64::NAN,
        f64::EPSILON,
        0.99999999999999989,
        -0.99999999999999989,
        1023.9999999999999,
        -1023.9999999999999,
    ];
    let mut state: u64 = 0x9E37_79B9_7F4A_7C15;
    for _ in 0..2000 {
        state = state.wrapping_mul(6364136223846793005).wrapping_add(1442695040888963407);
        v.push(f64::from_bits(state));
        let scaled = ((state >> 11) as f64 / 9007199254740992.0 - 0.5) * 4096.0;
        v.push(scaled);
    }
    v
}

#[test]
fn named_patterns_are_the_patterns_of_their_values() {
    assert_eq!(SIGN_BIT, (-0.0f64).to_bits());
    assert_eq!(INFINITY_BITS, f64::INFINITY.to_bits());
    assert_eq!(ONE_BITS, 1.0f64.to_bits());
    assert_eq!(EPSILON_BITS, 1.0e-4f64.to_bits());
    assert_eq!(ONE_TENTH_BITS, 0.1f64.to_bits());
    assert_eq!(ONE_FIFTH_BITS, 0.2f64.to_bits());
    assert_eq!(QUARTER_BITS, 0.25f64.to_bits());
    assert_eq!(THREE_TENTHS_BITS, 0.3f64.to_bits());
    assert_eq!(HALF_BITS, 0.5f64.to_bits());
    assert_eq!(THREE_FIFTHS_BITS, 0.6f64.to_bits());
    assert_eq!(SEVEN_TENTHS_BITS, 0.7f64.to_bits());
    assert_eq!(FOUR_FIFTHS_BITS, 0.8f64.to_bits());
    assert_eq!(NINE_TENTHS_BITS, 0.9f64.to_bits());
    assert_eq!(THREE_HALVES_BITS, 1.5f64.to_bits());
    assert_eq!(TWO_BITS, 2.0f64.to_bits());
    assert_eq!(TEN_BITS, 10.0f64.to_bits());
    assert_eq!(MINUS_TEN_BITS, (-10.0f64).to_bits());
    assert_eq!(TWO_HUNDRED_BITS, 200.0f64.to_bits());
    assert_eq!(Scalar::zero().to_bits(), 0.0f64.to_bits());
    assert_eq!(Scalar::one().to_bits(), 1.0f64.to_bits());
    assert_eq!(Scalar::epsilon().to_bits(), 1.0e-4f64.to_bits());
    assert_eq!(Scalar::from_bits(7).bits, 7);
}

#[test]
fn comparisons_agree_with_the_numbers() {
    let values = samples();
    let short: Vec<f64> = values.iter().cloned().take(120).collect();
    for &a in &short {
        for &b in &short {
            assert_eq!(num(a).lt(num(b)), a < b, "{:?} < {:?}", a, b);
            assert_eq!(num(a).le(num(b)), a <= b, "{:?} <= {:?}", a, b);
            assert_eq!(num(a).gt(num(b)), a > b, "{:?} > {:?}", a, b);
            assert_eq!(num(a).ge(num(b)), a >= b, "{:?} >= {:?}", a, b);
            assert_eq!(num(a).same(num(b)), a == b, "{:?} == {:?}", a, b);
        }
    }
}

#[test]
fn tests_on_one_value_agree_with_the_numbers() {
    for a in samples() {
        assert_eq!(num(a).is_nan(), a.is_nan());
        assert_eq!(num(a).is_sign_negative(), a.is_sign_negative());
        assert_eq!(num(a).is_zero(), a == 0.);
        assert_eq!(num(a).neg().bits, (-a).to_bits());
        assert_eq!(num(a).abs().bits, a.abs().to_bits());
    }
}

#[test]
fn nan_sorts_behind_every_number() {
    let nan = num(f64::NAN);
    for a in samples() {
        if !a.is_nan() {
            assert!(num(a).sorts_before(nan));
            assert!(!nan.sorts_before(num(a)));
        }
    }
    assert!(!nan.sorts_before(nan));
    assert!(num(1.).sorts_before(num(2.)));
    assert!(!num(2.).sorts_before(num(1.)));
    assert!(!num(2.).sorts_before(num(2.)));
    assert!(!num(0.).sorts_before(num(-0.)));
    assert!(num(f64::NEG_INFINITY).sorts_before(num(f64::MIN)));
    assert!(num(f64::MAX).sorts_before(num(f64::INFINITY)));
}

#[test]
fn the_floor_agrees_with_the_numbers() {
    for a in samples() {
        assert_eq!(num(a).floor_to_int(), a.floor() as i64, "floor of {:?}", a);
        assert_eq!(
            num(a).floor_is_even(),
            (a.floor() as i64) % 2 == 0,
            "parity of the floor of {:?}",
            a
        );
    }
}

#[test]
fn the_floor_of_some_values() {
    assert_eq!(num(0.).floor_to_int(), 0);
    assert_eq!(num(-0.).floor_to_int(), 0);
    assert_eq!(num(0.9).floor_to_int(), 0);
    assert_eq!(num(1.).floor_to_int(), 1);
    assert_eq!(num(-0.1).floor_to_int(), -1);
    assert_eq!(num(-1.).floor_to_int(), -1);
    assert_eq!(num(-1.1).floor_to_int(), -2);
    assert_eq!(num(2.5).floor_to_int(), 2);
    assert_eq!(num(-2.5).floor_to_int(), -3);
    assert_eq!(num(5.0e-324).floor_to_int(), 0);
    assert_eq!(num(-5.0e-324).floor_to_int(), -1);
    assert_eq!(num(f64::NAN).floor_to_int(), 0);
    assert_eq!(num(f64::INFINITY).floor_to_int(), i64::MAX);
    assert_eq!(num(f64::NEG_INFINITY).floor_to_int(), i64::MIN);
    assert_eq!(num(1.0e19).floor_to_int(), i64::MAX);
    assert_eq!(num(-1.0e19).floor_to_int(), i64::MIN);
    assert_eq!(num(-9223372036854775808.0).floor_to_int(), i64::MIN);
    assert_eq!(num(4611686018427387904.0).floor_to_int(), 4611686018427387904);
    assert!(num(0.5).floor_is_even());
    assert!(!num(1.5).floor_is_even());
    assert!(!num(-0.5).floor_is_even());
    assert!(num(-1.5).floor_is_even());
    assert!(!num(f64::INFINITY).floor_is_even());
    assert!(num(f64::NEG_INFINITY).floor_is_even());
}
