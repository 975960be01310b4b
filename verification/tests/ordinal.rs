use path_tracer::math::ordinal::{
    clamp, from_bits, to_bits, FRACTION_SPAN, INFINITY, ONE, SIGN_BIT, UNBOUNDED, ZERO,
};

fn ordinal(value: f64) -> i64 {
    from_bits(value.to_bits()).unwrap()
}

fn double(ordinal: i64) -> f64 {
    f64::from_bits(to_bits(ordinal))
}

fn samples() -> Vec<f64> {
    vec![
        f64::NEG_INFINITY,
        f64::MIN,
        -1.0e300,
        -100.5,
        -2.0,
        -1.0,
        -0.999,
        -0.5,
        -1.0e-4,
        -1.0e-8,
        -f64::MIN_POSITIVE,
        -5.0e-324,
        0.0,
        5.0e-324,
        f64::MIN_POSITIVE,
        1.0e-8,
        1.0e-4,
        0.25,
        0.5,
        0.999,
        1.0,
        1.0000000000000002,
        1.5,
        2.0,
        100.0,
        1.0e300,
        f64::MAX,
        f64::INFINITY,
    ]
}

#[test]
fn one_has_the_ordinal_of_its_bits() {
    assert_eq!(from_bits(1.0f64.to_bits()), Some(ONE));
    assert_eq!(f64::from_bits(to_bits(ONE)), 1.0);
}

#[test]
fn named_ordinals_stand_for_their_doubles() {
    assert_eq!(ordinal(0.0), ZERO);
    assert_eq!(ordinal(1.0), ONE);
    assert_eq!(ordinal(f64::MAX), INFINITY);
    assert_eq!(ordinal(f64::INFINITY), UNBOUNDED);
    assert_eq!(ordinal(f64::NEG_INFINITY), -UNBOUNDED);
    assert_eq!(SIGN_BIT, (-0.0f64).to_bits());
    assert_eq!(FRACTION_SPAN, 1i64 << 52);
    assert_eq!(ONE, 0x3FF0_0000_0000_0000);
}

#[test]
fn both_zeros_have_the_ordinal_zero() {
    assert_eq!(from_bits(0.0f64.to_bits()), Some(0));
    assert_eq!(from_bits((-0.0f64).to_bits()), Some(0));
    assert_eq!(to_bits(0), 0);
}

#[test]
fn a_nan_has_no_ordinal() {
    assert_eq!(from_bits(f64::NAN.to_bits()), None);
    assert_eq!(from_bits((-f64::NAN).to_bits()), None);
    assert_eq!(from_bits(0x7FF0_0000_0000_0001), None);
    assert_eq!(from_bits(0xFFF0_0000_0000_0001), None);
    assert_eq!(from_bits(u64::MAX), None);
    assert_eq!(from_bits(0x7FF0_0000_0000_0000), Some(UNBOUNDED));
    assert_eq!(from_bits(0xFFF0_0000_0000_0000), Some(-UNBOUNDED));
}

#[test]
fn ordinals_are_in_the_order_of_their_doubles() {
    let values = samples();
    for a in &values {
        for b in &values {
            assert_eq!(ordinal(*a) < ordinal(*b), a < b, "{} < {}", a, b);
            assert_eq!(ordinal(*a) == ordinal(*b), a == b, "{} == {}", a, b);
            assert_eq!(ordinal(*a) <= ordinal(*b), a <= b, "{} <= {}", a, b);
        }
    }
}

#[test]
fn the_sign_of_an_ordinal_is_the_sign_of_its_double() {
    for value in samples() {
        assert_eq!(ordinal(value) < 0, value < 0.0);
        assert_eq!(ordinal(value) > 0, value > 0.0);
        assert_eq!(ordinal(value) == 0, value == 0.0);
    }
}

#[test]
fn negating_a_double_negates_its_ordinal() {
    for value in samples() {
        assert_eq!(ordinal(-value), -ordinal(value));
    }
}

#[test]
fn bits_round_trip_through_ordinals() {
    for value in samples() {
        let back = double(ordinal(value));
        assert_eq!(back, value);
        assert_eq!(back.to_bits(), (value + 0.0).to_bits());
        assert_eq!(from_bits(to_bits(ordinal(value))), Some(ordinal(value)));
    }
    assert_eq!(to_bits(-ONE), (-1.0f64).to_bits());
    assert_eq!(to_bits(-1), 0x8000_0000_0000_0001);
    assert_eq!(to_bits(1), 1);
}

#[test]
fn neighbouring_doubles_have_neighbouring_ordinals() {
    assert_eq!(ordinal(1.0000000000000002), ONE + 1);
    assert_eq!(ordinal(0.9999999999999999), ONE - 1);
    assert_eq!(ordinal(5.0e-324), 1);
    assert_eq!(ordinal(-5.0e-324), -1);
    assert_eq!(ordinal(f64::MAX) + 1, ordinal(f64::INFINITY));
}

#[test]
fn clamp_holds_a_value_between_its_bounds() {
    assert_eq!(clamp(5, 0, 10), 5);
    assert_eq!(clamp(-5, 0, 10), 0);
    assert_eq!(clamp(15, 0, 10), 10);
    assert_eq!(clamp(0, 0, 10), 0);
    assert_eq!(clamp(10, 0, 10), 10);
    assert_eq!(clamp(3, 7, 7), 7);
    assert_eq!(clamp(9, 7, 7), 7);
}

#[test]
fn clamp_answers_as_the_clamp_of_doubles() {
    for value in samples() {
        let held = clamp(ordinal(value), ordinal(0.0), ordinal(0.999));
        assert_eq!(double(held), value.clamp(0.0, 0.999));
    }
}

#[test]
fn clamp_with_crossed_bounds_tests_the_lower_bound_first() {
    assert_eq!(clamp(5, 10, 0), 10);
    assert_eq!(clamp(20, 10, 0), 0);
}
