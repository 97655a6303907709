use zscale::ordinal::{bits_of_ordinal, ordinal_of_bits};

fn ordinal(value: f32) -> i32 {
    ordinal_of_bits(value.to_bits())
}

fn rising() -> Vec<f32> {
    vec![
        f32::NEG_INFINITY,
        f32::MIN,
        -1.0e30,
        -2.5,
        -1.0,
        -1.0e-10,
        -f32::MIN_POSITIVE,
        -1.0e-40,
        -0.0,
        0.0,
        1.0e-40,
        f32::MIN_POSITIVE,
        1.0e-10,
        1.0,
        2.5,
        1.0e30,
        f32::MAX,
        f32::INFINITY,
    ]
}

#[test]
fn zeros_have_the_two_middle_ordinals() {
    assert_eq!(ordinal(0.0), 0);
    assert_eq!(ordinal(-0.0), -1);
}

#[test]
fn ordinals_of_known_patterns() {
    assert_eq!(ordinal_of_bits(0x0000_0000), 0);
    assert_eq!(ordinal_of_bits(0x0000_0001), 1);
    assert_eq!(ordinal_of_bits(0x3F80_0000), 0x3F80_0000);
    assert_eq!(ordinal_of_bits(0x7FFF_FFFF), i32::MAX);
    assert_eq!(ordinal_of_bits(0x8000_0000), -1);
    assert_eq!(ordinal_of_bits(0x8000_0001), -2);
    assert_eq!(ordinal_of_bits(0xBF80_0000), -0x3F80_0001);
    assert_eq!(ordinal_of_bits(0xFFFF_FFFF), i32::MIN);
}

#[test]
fn patterns_of_known_ordinals() {
    assert_eq!(bits_of_ordinal(0), 0x0000_0000);
    assert_eq!(bits_of_ordinal(1), 0x0000_0001);
    assert_eq!(bits_of_ordinal(i32::MAX), 0x7FFF_FFFF);
    assert_eq!(bits_of_ordinal(-1), 0x8000_0000);
    assert_eq!(bits_of_ordinal(-2), 0x8000_0001);
    assert_eq!(bits_of_ordinal(i32::MIN), 0xFFFF_FFFF);
}

#[test]
fn ordinals_rise_with_the_intensity() {
    let values = rising();
    for k in 1..values.len() {
        assert!(
            ordinal(values[k - 1]) < ordinal(values[k]),
            "{} against {}",
            values[k - 1],
            values[k]
        );
    }
}

#[test]
fn ordinals_order_every_pair_as_the_intensities() {
    let values = rising();
    for a in values.iter() {
        for b in values.iter() {
            if *a < *b {
                assert!(ordinal(*a) < ordinal(*b), "{} against {}", a, b);
            }
            if ordinal(*a) < ordinal(*b) {
                assert!(*a <= *b, "{} against {}", a, b);
            }
        }
    }
}

#[test]
fn ordinals_of_ones_are_one_apart_from_their_neighbours() {
    let one = 1.0f32;
    let next = f32::from_bits(one.to_bits() + 1);
    assert_eq!(ordinal(next), ordinal(one) + 1);
    let minus_one = -1.0f32;
    let further = f32::from_bits(minus_one.to_bits() + 1);
    assert!(further < minus_one);
    assert_eq!(ordinal(further), ordinal(minus_one) - 1);
}

#[test]
fn pattern_is_found_again() {
    for value in rising() {
        let bits = value.to_bits();
        assert_eq!(bits_of_ordinal(ordinal_of_bits(bits)), bits);
    }
    let not_a_number = f32::NAN.to_bits();
    assert_eq!(bits_of_ordinal(ordinal_of_bits(not_a_number)), not_a_number);
}

#[test]
fn ordinal_is_found_again() {
    for k in [i32::MIN, -0x7F80_0001, -2, -1, 0, 1, 0x3F80_0000, 0x7F80_0000, i32::MAX] {
        assert_eq!(ordinal_of_bits(bits_of_ordinal(k)), k);
    }
}

#[test]
fn round_trip_over_a_sweep_of_patterns() {
    let mut bits: u32 = 0;
    loop {
        assert_eq!(bits_of_ordinal(ordinal_of_bits(bits)), bits);
        match bits.checked_add(0x0001_0001) {
            Some(next) => bits = next,
            None => break,
        }
    }
}

#[test]
fn infinities_bound_the_numbers() {
    assert_eq!(ordinal(f32::INFINITY), 0x7F80_0000);
    assert_eq!(ordinal(f32::NEG_INFINITY), -0x7F80_0001);
    for value in rising() {
        assert!(ordinal(f32::NEG_INFINITY) <= ordinal(value));
        assert!(ordinal(value) <= ordinal(f32::INFINITY));
    }
}
