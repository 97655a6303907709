use zscale::bounds::{contrast_applies, display_bounds, Bounds};
use zscale::error::ScaleError;
use zscale::mapper::{clamp_to_range, clamp_value, is_degenerate};
use zscale::ordinal::{bits_of_ordinal, ordinal_of_bits};

fn ordinal(value: f32) -> i32 {
    ordinal_of_bits(value.to_bits())
}

fn ordinals(values: &[f32]) -> Vec<i32> {
    values.iter().map(|v| ordinal(*v)).collect()
}

fn intensity(ordinal: i32) -> f32 {
    f32::from_bits(bits_of_ordinal(ordinal))
}

fn intensities(ordinals: &[i32]) -> Vec<f32> {
    ordinals.iter().map(|k| intensity(*k)).collect()
}

#[test]
fn bounds_of_an_empty_sample_are_refused() {
    assert_eq!(display_bounds(&Vec::new(), ordinal(0.0), ordinal(1.0)), Err(ScaleError::EmptyInput));
}

#[test]
fn line_inside_the_sample_is_the_range() {
    let samples = ordinals(&[1.0, 2.0, 5.0, 9.0, 40.0]);
    let bounds = display_bounds(&samples, ordinal(1.5), ordinal(12.0)).unwrap();
    assert_eq!(intensity(bounds.min), 1.5);
    assert_eq!(intensity(bounds.max), 12.0);
}

#[test]
fn line_beyond_the_sample_is_held_to_the_extremes() {
    let samples = ordinals(&[10.0, 20.0]);
    let bounds = display_bounds(&samples, ordinal(-90.0), ordinal(110.0)).unwrap();
    assert_eq!(bounds, Bounds { min: ordinal(10.0), max: ordinal(20.0) });
}

#[test]
fn each_end_is_held_on_its_own() {
    let samples = ordinals(&[-4.0, 0.5, 3.0]);
    let low_held = display_bounds(&samples, ordinal(-10.0), ordinal(2.0)).unwrap();
    assert_eq!(intensities(&[low_held.min, low_held.max]), vec![-4.0, 2.0]);
    let high_held = display_bounds(&samples, ordinal(-1.0), ordinal(7.0)).unwrap();
    assert_eq!(intensities(&[high_held.min, high_held.max]), vec![-1.0, 3.0]);
}

#[test]
fn flat_line_on_a_constant_sample_gives_equal_ends() {
    let samples = ordinals(&[5.0; 1000]);
    let bounds = display_bounds(&samples, ordinal(5.0), ordinal(5.0)).unwrap();
    assert_eq!(bounds, Bounds { min: ordinal(5.0), max: ordinal(5.0) });
    assert!(is_degenerate(bounds.min, bounds.max));
}

#[test]
fn rising_line_gives_ends_in_order() {
    let samples = ordinals(&[0.0, 1.0, 2.0, 3.0]);
    let bounds = display_bounds(&samples, ordinal(-15.0), ordinal(18.0)).unwrap();
    assert_eq!(intensities(&[bounds.min, bounds.max]), vec![0.0, 3.0]);
    assert!(!is_degenerate(bounds.min, bounds.max));
    assert!(bounds.min < bounds.max);
}

#[test]
fn line_that_misses_the_sample_gives_ends_out_of_order() {
    let samples = ordinals(&[10.0, 20.0]);
    let bounds = display_bounds(&samples, ordinal(30.0), ordinal(40.0)).unwrap();
    assert_eq!(intensities(&[bounds.min, bounds.max]), vec![30.0, 20.0]);
    assert!(!is_degenerate(bounds.min, bounds.max));
}

#[test]
fn line_end_that_is_not_a_number_leaves_the_extreme() {
    let samples = ordinals(&[10.0, 20.0]);
    let bounds = display_bounds(&samples, ordinal(f32::NAN), ordinal(f32::NAN)).unwrap();
    assert_eq!(bounds, Bounds { min: ordinal(10.0), max: ordinal(20.0) });
}

#[test]
fn contrast_above_zero_applies() {
    assert!(contrast_applies(ordinal(0.1)));
    assert!(contrast_applies(ordinal(f32::MIN_POSITIVE)));
    assert!(contrast_applies(ordinal(f32::INFINITY)));
}

#[test]
fn contrast_of_zero_or_less_does_not_apply() {
    assert!(!contrast_applies(ordinal(0.0)));
    assert!(!contrast_applies(ordinal(-0.0)));
    assert!(!contrast_applies(ordinal(-0.1)));
    assert!(!contrast_applies(ordinal(f32::NAN)));
}

#[test]
fn equal_ends_are_degenerate() {
    assert!(is_degenerate(ordinal(5.0), ordinal(5.0)));
    assert!(is_degenerate(ordinal(0.0), ordinal(-0.0)));
    assert!(is_degenerate(ordinal(f32::INFINITY), ordinal(f32::INFINITY)));
}

#[test]
fn different_ends_are_not_degenerate() {
    assert!(!is_degenerate(ordinal(4.0), ordinal(6.0)));
    assert!(!is_degenerate(ordinal(6.0), ordinal(4.0)));
    assert!(!is_degenerate(ordinal(5.0), ordinal(f32::from_bits(5.0f32.to_bits() + 1))));
    assert!(!is_degenerate(ordinal(f32::NAN), ordinal(f32::NAN)));
}

#[test]
fn clamp_brings_pixels_into_the_range() {
    let image = ordinals(&[-50.0, 0.0, 50.0, 100.0, 150.0]);
    let clamped = clamp_to_range(&image, ordinal(0.0), ordinal(100.0));
    assert_eq!(intensities(&clamped), vec![0.0, 0.0, 50.0, 100.0, 100.0]);
}

#[test]
fn clamp_is_that_of_the_intensities() {
    let values = [
        f32::NEG_INFINITY, -7.0, -0.0, 0.0, 1.0e-40, 0.25, 1.0, 3.0, 3.5, 1.0e20, f32::INFINITY,
    ];
    let ranges = [(0.0f32, 3.0f32), (-0.0, 3.0), (-7.0, -7.0), (0.25, 1.0e20), (-1.0, 0.0)];
    for (min, max) in ranges {
        for value in values {
            let found = clamp_value(ordinal(value), ordinal(min), ordinal(max));
            assert_eq!(
                bits_of_ordinal(found),
                value.clamp(min, max).to_bits(),
                "{} into {}..{}",
                value,
                min,
                max
            );
        }
    }
}

#[test]
fn clamp_leaves_what_is_not_a_number() {
    let nan = ordinal(f32::NAN);
    assert_eq!(clamp_value(nan, ordinal(0.0), ordinal(1.0)), nan);
}

#[test]
fn clamp_keeps_length_and_order() {
    let image = ordinals(&[9.0, 1.0, 5.0, 5.0, -2.0, 7.5]);
    let clamped = clamp_to_range(&image, ordinal(2.0), ordinal(7.0));
    assert_eq!(intensities(&clamped), vec![7.0, 2.0, 5.0, 5.0, 2.0, 7.0]);
    assert_eq!(clamp_to_range(&Vec::new(), ordinal(2.0), ordinal(7.0)), Vec::<i32>::new());
}

#[test]
fn clamp_a_second_time_changes_nothing() {
    let image = ordinals(&[9.0, 1.0, 5.0, -0.0, f32::INFINITY]);
    let once = clamp_to_range(&image, ordinal(0.0), ordinal(7.0));
    let twice = clamp_to_range(&once, ordinal(0.0), ordinal(7.0));
    assert_eq!(once, twice);
}

#[test]
fn clamp_keeps_the_sign_of_a_zero_at_the_end_of_the_range() {
    assert_eq!(clamp_value(ordinal(-0.0), ordinal(0.0), ordinal(1.0)), ordinal(-0.0));
    assert_eq!(clamp_value(ordinal(0.0), ordinal(-1.0), ordinal(-0.0)), ordinal(0.0));
}

#[test]
fn clamp_on_ends_out_of_order_leaves_only_the_ends() {
    let image = ordinals(&[1.0, 4.0, 5.0, 6.0, 9.0]);
    let clamped = clamp_to_range(&image, ordinal(6.0), ordinal(4.0));
    assert_eq!(intensities(&clamped), vec![6.0, 6.0, 6.0, 4.0, 4.0]);
}
